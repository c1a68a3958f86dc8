use vstd::prelude::*;

use crate::parse::{launchctl_record, ls_record, lsof_record, parse_launchctl_line, parse_ls_line, parse_lsof_line};
use crate::paths::{clean_absolute, is_root_path, joined_path, lemma_join_then_parent, path_is_root, plain_component};
use crate::platform::{lowercase, to_lowercase};
use crate::records::{
    FileInfo, FileRecord, NetworkInfo, PortInfo, PortRecord, ProcessInfo, ServiceInfo, ServiceRecord,
    SystemInfo,
};
use crate::traffic::{sort_by_traffic, sorted_by_traffic};
use crate::state::{clamped_index, lemma_clamp_in_range, AppState, Tab};
use crate::text::{contains_seq, contains_str, lines, occurs_at, split_lines, string_views};

verus! {

/// The field texts of each port.
pub open spec fn port_views(v: Seq<PortInfo>) -> Seq<PortRecord> {
    v.map_values(|p: PortInfo| p@)
}

/// The field texts of each file entry.
pub open spec fn file_views(v: Seq<FileInfo>) -> Seq<FileRecord> {
    v.map_values(|f: FileInfo| f@)
}

/// The field texts of each service.
pub open spec fn service_views(v: Seq<ServiceInfo>) -> Seq<ServiceRecord> {
    v.map_values(|s: ServiceInfo| s@)
}

/// The lines of a command's output after its header line.
pub open spec fn body_lines(output: Seq<char>) -> Seq<Seq<char>> {
    let all = lines(output);
    if all.len() == 0 {
        all
    } else {
        all.drop_first()
    }
}

/// The ports that the lines describe, in order, skipping lines that describe none.
pub open spec fn ports_of_lines(ls: Seq<Seq<char>>) -> Seq<PortRecord>
    decreases ls.len(),
{
    if ls.len() == 0 {
        seq![]
    } else {
        ports_of_lines(ls.drop_last()) + match lsof_record(ls.last()) {
            Some(p) => seq![p],
            None => seq![],
        }
    }
}

/// The directory entries that the lines describe, in order, skipping lines that describe none.
pub open spec fn files_of_lines(ls: Seq<Seq<char>>) -> Seq<FileRecord>
    decreases ls.len(),
{
    if ls.len() == 0 {
        seq![]
    } else {
        files_of_lines(ls.drop_last()) + match ls_record(ls.last()) {
            Some(f) => seq![f],
            None => seq![],
        }
    }
}

/// The services that the lines describe, in order, skipping lines that describe none.
pub open spec fn services_of_lines(ls: Seq<Seq<char>>) -> Seq<ServiceRecord>
    decreases ls.len(),
{
    if ls.len() == 0 {
        seq![]
    } else {
        services_of_lines(ls.drop_last()) + match launchctl_record(ls.last()) {
            Some(s) => seq![s],
            None => seq![],
        }
    }
}

/// Whether a port passes a lower-cased filter: the filter occurs in the lower-cased port,
/// process, protocol or local address.
pub open spec fn port_matches(p: PortRecord, filter_lower: Seq<char>) -> bool {
    ||| contains_seq(lowercase(p.port), filter_lower)
    ||| contains_seq(lowercase(p.process), filter_lower)
    ||| contains_seq(lowercase(p.protocol), filter_lower)
    ||| contains_seq(lowercase(p.local_address), filter_lower)
}

/// The ports that pass a lower-cased filter, in order.
pub open spec fn ports_matching(ports: Seq<PortRecord>, filter_lower: Seq<char>) -> Seq<PortRecord>
    decreases ports.len(),
{
    if ports.len() == 0 {
        seq![]
    } else {
        ports_matching(ports.drop_last(), filter_lower) + if port_matches(ports.last(), filter_lower) {
            seq![ports.last()]
        } else {
            seq![]
        }
    }
}

/// The ports shown for a filter text: all of them when it is empty, else those that pass
/// the lower-cased filter.
pub open spec fn ports_shown(ports: Seq<PortRecord>, filter: Seq<char>) -> Seq<PortRecord> {
    if filter.len() == 0 {
        ports
    } else {
        ports_matching(ports, lowercase(filter))
    }
}

/// The entry that leads back to the parent directory.
pub open spec fn parent_entry() -> FileRecord {
    FileRecord {
        name: seq!['.', '.'],
        size: "DIR"@,
        date: seq![],
        permissions: seq!['d'],
        is_directory: true,
    }
}

/// The entries shown for a directory listing: those the listing describes after its header
/// line, led by the parent entry unless the directory is the root.
pub open spec fn files_shown(path: Seq<char>, listing: Seq<char>) -> Seq<FileRecord> {
    let listed = files_of_lines(body_lines(listing));
    if path_is_root(path) {
        listed
    } else {
        seq![parent_entry()] + listed
    }
}

proof fn lemma_port_views_push(v: Seq<PortInfo>, p: PortInfo)
    ensures
        port_views(v.push(p)) == port_views(v).push(p@),
{
    assert(port_views(v.push(p)) =~= port_views(v).push(p@));
}

proof fn lemma_file_views_push(v: Seq<FileInfo>, f: FileInfo)
    ensures
        file_views(v.push(f)) == file_views(v).push(f@),
{
    assert(file_views(v.push(f)) =~= file_views(v).push(f@));
}

proof fn lemma_service_views_push(v: Seq<ServiceInfo>, s: ServiceInfo)
    ensures
        service_views(v.push(s)) == service_views(v).push(s@),
{
    assert(service_views(v.push(s)) =~= service_views(v).push(s@));
}

/// Whether a port passes a filter that is already lower-cased.
pub fn port_passes_filter(p: &PortInfo, filter_lower: &str) -> (r: bool)
    ensures
        r == port_matches(p@, filter_lower@),
{
    contains_str(to_lowercase(p.port.as_str()).as_str(), filter_lower) || contains_str(
        to_lowercase(p.process.as_str()).as_str(),
        filter_lower,
    ) || contains_str(to_lowercase(p.protocol.as_str()).as_str(), filter_lower) || contains_str(
        to_lowercase(p.local_address.as_str()).as_str(),
        filter_lower,
    )
}

/// The ports that pass a filter that is already lower-cased, in order.
pub fn filter_ports(ports: &Vec<PortInfo>, filter_lower: &str) -> (r: Vec<PortInfo>)
    ensures
        port_views(r@) == ports_matching(port_views(ports@), filter_lower@),
{
    let mut out: Vec<PortInfo> = Vec::new();
    let n = ports.len();
    for i in 0..n
        invariant
            n == ports@.len(),
            port_views(out@) == ports_matching(port_views(ports@).take(i as int), filter_lower@),
    {
        let ghost prev = port_views(ports@).take(i as int);
        let ghost next = port_views(ports@).take(i + 1);
        assert(next.drop_last() =~= prev);
        assert(next.last() == ports@[i as int]@);
        if port_passes_filter(&ports[i], filter_lower) {
            let p = ports[i].duplicate();
            proof {
                lemma_port_views_push(out@, p);
            }
            out.push(p);
            assert(port_views(out@) =~= ports_matching(next, filter_lower@));
        } else {
            assert(port_views(out@) =~= ports_matching(next, filter_lower@));
        }
    }
    assert(port_views(ports@).take(n as int) =~= port_views(ports@));
    out
}

/// Copies of the ports, in order.
fn copy_ports(ports: &Vec<PortInfo>) -> (r: Vec<PortInfo>)
    ensures
        r@ == ports@,
{
    let mut out: Vec<PortInfo> = Vec::new();
    let n = ports.len();
    for i in 0..n
        invariant
            n == ports@.len(),
            out@ == ports@.take(i as int),
    {
        out.push(ports[i].duplicate());
        assert(out@ =~= ports@.take(i + 1));
    }
    assert(ports@.take(n as int) =~= ports@);
    out
}

/// The ports that the lines of `lsof` output describe after its header line.
pub fn parse_lsof_output(output: &str) -> (r: Vec<PortInfo>)
    ensures
        port_views(r@) == ports_of_lines(body_lines(output@)),
{
    let ls = split_lines(output);
    let ghost all = lines(output@);
    let mut out: Vec<PortInfo> = Vec::new();
    let n = ls.len();
    if n == 0 {
        return out;
    }
    let ghost body = all.drop_first();
    for i in 1..n
        invariant
            n == ls@.len(),
            n >= 1,
            string_views(ls@) == all,
            body == all.drop_first(),
            port_views(out@) == ports_of_lines(body.take(i - 1)),
    {
        let ghost prev = body.take(i - 1);
        let ghost next = body.take(i as int);
        assert(next.drop_last() =~= prev);
        assert(next.last() == ls@[i as int]@);
        match parse_lsof_line(ls[i].as_str()) {
            Some(p) => {
                proof {
                    lemma_port_views_push(out@, p);
                }
                out.push(p);
                assert(port_views(out@) =~= ports_of_lines(next));
            },
            None => {
                assert(port_views(out@) =~= ports_of_lines(next));
            },
        }
    }
    assert(body.take(n - 1) =~= body);
    out
}

/// The directory entries that the lines of `ls -la` output describe after its header line.
pub fn parse_ls_output(output: &str) -> (r: Vec<FileInfo>)
    ensures
        file_views(r@) == files_of_lines(body_lines(output@)),
{
    let ls = split_lines(output);
    let ghost all = lines(output@);
    let mut out: Vec<FileInfo> = Vec::new();
    let n = ls.len();
    if n == 0 {
        return out;
    }
    let ghost body = all.drop_first();
    for i in 1..n
        invariant
            n == ls@.len(),
            n >= 1,
            string_views(ls@) == all,
            body == all.drop_first(),
            file_views(out@) == files_of_lines(body.take(i - 1)),
    {
        let ghost prev = body.take(i - 1);
        let ghost next = body.take(i as int);
        assert(next.drop_last() =~= prev);
        assert(next.last() == ls@[i as int]@);
        match parse_ls_line(ls[i].as_str()) {
            Some(f) => {
                proof {
                    lemma_file_views_push(out@, f);
                }
                out.push(f);
                assert(file_views(out@) =~= files_of_lines(next));
            },
            None => {
                assert(file_views(out@) =~= files_of_lines(next));
            },
        }
    }
    assert(body.take(n - 1) =~= body);
    out
}

/// The services that the lines of `launchctl list` output describe after its header line.
pub fn parse_launchctl_output(output: &str) -> (r: Vec<ServiceInfo>)
    ensures
        service_views(r@) == services_of_lines(body_lines(output@)),
{
    let ls = split_lines(output);
    let ghost all = lines(output@);
    let mut out: Vec<ServiceInfo> = Vec::new();
    let n = ls.len();
    if n == 0 {
        return out;
    }
    let ghost body = all.drop_first();
    for i in 1..n
        invariant
            n == ls@.len(),
            n >= 1,
            string_views(ls@) == all,
            body == all.drop_first(),
            service_views(out@) == services_of_lines(body.take(i - 1)),
    {
        let ghost prev = body.take(i - 1);
        let ghost next = body.take(i as int);
        assert(next.drop_last() =~= prev);
        assert(next.last() == ls@[i as int]@);
        match parse_launchctl_line(ls[i].as_str()) {
            Some(s) => {
                proof {
                    lemma_service_views_push(out@, s);
                }
                out.push(s);
                assert(service_views(out@) =~= services_of_lines(next));
            },
            None => {
                assert(service_views(out@) =~= services_of_lines(next));
            },
        }
    }
    assert(body.take(n - 1) =~= body);
    out
}

impl AppState {
    /// Shows the ports that pass the filter text and brings the selection inside the list.
    pub fn apply_port_filter(&mut self)
        ensures
            final(self).list_len() > 0 ==> final(self).selected_index < final(self).list_len(),
            port_views(final(self).ports@) == ports_shown(
                port_views(old(self).all_ports@),
                old(self).port_filter@,
            ),
            final(self).selected_index == clamped_index(
                old(self).selected_index as nat,
                (AppState { ports: final(self).ports, ..*old(self) }).list_len(),
            ),
            *final(self) == (AppState {
                ports: final(self).ports,
                selected_index: final(self).selected_index,
                ..*old(self)
            }),
    {
        if self.port_filter.as_str().is_empty() {
            self.ports = copy_ports(&self.all_ports);
        } else {
            let filter_lower = to_lowercase(self.port_filter.as_str());
            self.ports = filter_ports(&self.all_ports, filter_lower.as_str());
        }
        self.clamp_selected_index();
    }
}


/// What is read from the system on a refresh: the processes and interfaces, the output of
/// `lsof -i -P -n`, of `ls -la` on the current directory and of `launchctl list`, and the
/// machine facts. A command that could not be run gives empty output.
pub struct Readings {
    pub processes: Vec<ProcessInfo>,
    pub networks: Vec<NetworkInfo>,
    pub lsof_output: String,
    pub ls_output: String,
    pub launchctl_output: String,
    pub system_info: SystemInfo,
}

impl AppState {
    /// Shows the given processes, in the order given, and brings the selection inside the list.
    pub fn refresh_processes(&mut self, processes: Vec<ProcessInfo>)
        ensures
            final(self).list_len() > 0 ==> final(self).selected_index < final(self).list_len(),
            final(self).processes@ == processes@,
            final(self).selected_index == clamped_index(
                old(self).selected_index as nat,
                final(self).list_len(),
            ),
            *final(self) == (AppState {
                processes: final(self).processes,
                selected_index: final(self).selected_index,
                ..*old(self)
            }),
    {
        self.processes = processes;
        self.clamp_selected_index();
    }

    /// Shows the given interfaces in traffic order and brings the selection inside the list.
    pub fn refresh_networks(&mut self, networks: Vec<NetworkInfo>)
        ensures
            final(self).list_len() > 0 ==> final(self).selected_index < final(self).list_len(),
            final(self).networks@ == sorted_by_traffic(networks@),
            final(self).selected_index == clamped_index(
                old(self).selected_index as nat,
                final(self).list_len(),
            ),
            *final(self) == (AppState {
                networks: final(self).networks,
                selected_index: final(self).selected_index,
                ..*old(self)
            }),
    {
        self.networks = sort_by_traffic(networks);
        self.clamp_selected_index();
    }

    /// Reads the ports from `lsof` output, shows those that pass the filter and brings the
    /// selection inside the list.
    pub fn refresh_ports(&mut self, lsof_output: &str)
        ensures
            final(self).list_len() > 0 ==> final(self).selected_index < final(self).list_len(),
            port_views(final(self).all_ports@) == ports_of_lines(body_lines(lsof_output@)),
            port_views(final(self).ports@) == ports_shown(
                port_views(final(self).all_ports@),
                old(self).port_filter@,
            ),
            final(self).selected_index == clamped_index(
                old(self).selected_index as nat,
                final(self).list_len(),
            ),
            *final(self) == (AppState {
                all_ports: final(self).all_ports,
                ports: final(self).ports,
                selected_index: final(self).selected_index,
                ..*old(self)
            }),
    {
        self.all_ports = parse_lsof_output(lsof_output);
        self.apply_port_filter();
    }

    /// Reads the entries of the current directory from `ls -la` output, led by the parent
    /// entry unless the directory is the root, and brings the selection inside the list.
    pub fn refresh_files(&mut self, ls_output: &str)
        ensures
            final(self).list_len() > 0 ==> final(self).selected_index < final(self).list_len(),
            file_views(final(self).files@) == files_shown(old(self).current_path@, ls_output@),
            final(self).selected_index == clamped_index(
                old(self).selected_index as nat,
                final(self).list_len(),
            ),
            *final(self) == (AppState {
                files: final(self).files,
                selected_index: final(self).selected_index,
                ..*old(self)
            }),
    {
        let mut files = parse_ls_output(ls_output);
        if !is_root_path(self.current_path.as_str()) {
            proof {
                reveal_strlit("..");
                reveal_strlit("d");
            }
            let parent = FileInfo {
                name: String::from_str(".."),
                size: String::from_str("DIR"),
                date: String::new(),
                permissions: String::from_str("d"),
                is_directory: true,
            };
            assert(parent@ == parent_entry()) by {
                assert(parent.name@ =~= seq!['.', '.']);
                assert(parent.permissions@ =~= seq!['d']);
                assert(parent.date@ =~= Seq::<char>::empty());
            }
            let ghost before = files@;
            files.insert(0, parent);
            assert(file_views(files@) =~= seq![parent_entry()] + file_views(before));
        }
        self.files = files;
        self.clamp_selected_index();
    }

    /// Reads the services from `launchctl list` output and brings the selection inside the
    /// list.
    pub fn refresh_services(&mut self, launchctl_output: &str)
        ensures
            final(self).list_len() > 0 ==> final(self).selected_index < final(self).list_len(),
            service_views(final(self).services@) == services_of_lines(
                body_lines(launchctl_output@),
            ),
            final(self).selected_index == clamped_index(
                old(self).selected_index as nat,
                final(self).list_len(),
            ),
            *final(self) == (AppState {
                services: final(self).services,
                selected_index: final(self).selected_index,
                ..*old(self)
            }),
    {
        self.services = parse_launchctl_output(launchctl_output);
        self.clamp_selected_index();
    }

    /// Shows the given machine facts.
    pub fn refresh_system_info(&mut self, info: SystemInfo)
        ensures
            *final(self) == (AppState { system_info: info, ..*old(self) }),
    {
        self.system_info = info;
    }

    /// Refreshes every list from the readings, in the order processes, interfaces, ports,
    /// files, services, machine facts, each bringing the selection inside the current list.
    /// The selection therefore ends inside the new list; on tabs other than Processes it was
    /// first brought inside the list as it was before.
    pub fn refresh_data(&mut self, readings: Readings)
        ensures
            final(self).list_len() > 0 ==> final(self).selected_index < final(self).list_len(),
            final(self).processes@ == readings.processes@,
            final(self).networks@ == sorted_by_traffic(readings.networks@),
            port_views(final(self).all_ports@) == ports_of_lines(
                body_lines(readings.lsof_output@),
            ),
            port_views(final(self).ports@) == ports_shown(
                port_views(final(self).all_ports@),
                old(self).port_filter@,
            ),
            file_views(final(self).files@) == files_shown(
                old(self).current_path@,
                readings.ls_output@,
            ),
            service_views(final(self).services@) == services_of_lines(
                body_lines(readings.launchctl_output@),
            ),
            final(self).system_info == readings.system_info,
            final(self).selected_index == if old(self).current_tab == Tab::Processes {
                clamped_index(old(self).selected_index as nat, final(self).list_len())
            } else {
                clamped_index(
                    clamped_index(old(self).selected_index as nat, old(self).list_len()),
                    final(self).list_len(),
                )
            },
            *final(self) == (AppState {
                processes: final(self).processes,
                networks: final(self).networks,
                all_ports: final(self).all_ports,
                ports: final(self).ports,
                files: final(self).files,
                services: final(self).services,
                system_info: final(self).system_info,
                selected_index: final(self).selected_index,
                ..*old(self)
            }),
    {
        let ghost s0 = *self;
        let Readings { processes, networks, lsof_output, ls_output, launchctl_output, system_info } =
            readings;
        self.refresh_processes(processes);
        let ghost s1 = *self;
        self.refresh_networks(networks);
        let ghost s2 = *self;
        self.refresh_ports(lsof_output.as_str());
        let ghost s3 = *self;
        self.refresh_files(ls_output.as_str());
        let ghost s4 = *self;
        self.refresh_services(launchctl_output.as_str());
        let ghost s5 = *self;
        self.refresh_system_info(system_info);
        let ghost s6 = *self;
        self.clamp_selected_index();
        proof {
            let l0 = s0.list_len();
            let lf = self.list_len();
            let i0 = s0.selected_index as nat;
            lemma_clamp_in_range(i0, l0);
            lemma_clamp_in_range(i0, lf);
            lemma_clamp_in_range(clamped_index(i0, l0), lf);
            assert(s6.list_len() == lf);
        }
    }
}


/// The ports that pass a filter are exactly those of the list that match it, none added.
pub proof fn lemma_ports_matching_exact(ports: Seq<PortRecord>, filter_lower: Seq<char>)
    ensures
        forall|x: PortRecord| #[trigger]
            ports_matching(ports, filter_lower).contains(x) <==> ports.contains(x) && port_matches(
                x,
                filter_lower,
            ),
        ports_matching(ports, filter_lower).len() <= ports.len(),
    decreases ports.len(),
{
    if ports.len() > 0 {
        let init = ports.drop_last();
        lemma_ports_matching_exact(init, filter_lower);
        let m = ports_matching(init, filter_lower);
        let tail = if port_matches(ports.last(), filter_lower) {
            seq![ports.last()]
        } else {
            seq![]
        };
        assert(ports_matching(ports, filter_lower) == m + tail);
        assert(init.push(ports.last()) =~= ports);
        assert forall|x: PortRecord| #[trigger]
            ports_matching(ports, filter_lower).contains(x) <==> ports.contains(x) && port_matches(
                x,
                filter_lower,
            ) by {
            if (m + tail).contains(x) {
                let k = choose|k: int| 0 <= k < (m + tail).len() && (m + tail)[k] == x;
                if k < m.len() {
                    assert(m[k] == x);
                    assert(m.contains(x));
                    assert(init.contains(x) && port_matches(x, filter_lower));
                    let j = choose|j: int| 0 <= j < init.len() && init[j] == x;
                    assert(ports[j] == x);
                } else {
                    assert(tail[k - m.len()] == x);
                    assert(ports[ports.len() - 1] == x);
                    assert(port_matches(x, filter_lower));
                }
                assert(ports.contains(x));
            }
            if ports.contains(x) && port_matches(x, filter_lower) {
                let j = choose|j: int| 0 <= j < ports.len() && ports[j] == x;
                if j < ports.len() - 1 {
                    assert(init[j] == x);
                    assert(init.contains(x));
                    assert(m.contains(x));
                    let k = choose|k: int| 0 <= k < m.len() && m[k] == x;
                    assert((m + tail)[k] == x);
                } else {
                    assert((m + tail)[m.len() as int] == x);
                }
            }
        }
    }
}

/// With an empty filter every port is shown.
pub proof fn lemma_empty_filter_shows_all(ports: Seq<PortRecord>)
    ensures
        ports_shown(ports, seq![]) == ports,
{
}


/// Occurring in a text is transitive: what occurs in a part of a text occurs in the text.
pub proof fn lemma_contains_transitive(a: Seq<char>, b: Seq<char>, c: Seq<char>)
    requires
        contains_seq(a, b),
        contains_seq(b, c),
    ensures
        contains_seq(a, c),
{
    let i = choose|i: int| occurs_at(a, b, i);
    let j = choose|j: int| occurs_at(b, c, j);
    assert forall|k: int| 0 <= k < c.len() implies a.subrange(i + j, i + j + c.len())[k] == c[k] by {
        assert(b.subrange(j, j + c.len())[k] == c[k]);
        assert(a.subrange(i, i + b.len())[j + k] == b[j + k]);
    }
    assert(a.subrange(i + j, i + j + c.len()) =~= c);
    assert(occurs_at(a, c, i + j));
}

proof fn lemma_ports_matching_concat(a: Seq<PortRecord>, b: Seq<PortRecord>, f: Seq<char>)
    ensures
        ports_matching(a + b, f) == ports_matching(a, f) + ports_matching(b, f),
    decreases b.len(),
{
    if b.len() == 0 {
        assert(a + b =~= a);
        assert(ports_matching(a, f) + ports_matching(b, f) =~= ports_matching(a, f));
    } else {
        lemma_ports_matching_concat(a, b.drop_last(), f);
        assert((a + b).drop_last() =~= a + b.drop_last());
        assert((a + b).last() == b.last());
        let t = if port_matches(b.last(), f) {
            seq![b.last()]
        } else {
            seq![]
        };
        assert(ports_matching(a, f) + ports_matching(b.drop_last(), f) + t =~= ports_matching(a, f)
            + (ports_matching(b.drop_last(), f) + t));
    }
}

proof fn lemma_ports_matching_single(x: PortRecord, f: Seq<char>)
    ensures
        ports_matching(seq![x], f) == if port_matches(x, f) {
            seq![x]
        } else {
            Seq::<PortRecord>::empty()
        },
{
    let s = seq![x];
    assert(s.drop_last() =~= Seq::<PortRecord>::empty());
    assert(s.last() == x);
    assert(ports_matching(s.drop_last(), f) == Seq::<PortRecord>::empty());
    if port_matches(x, f) {
        assert(Seq::<PortRecord>::empty() + seq![x] =~= seq![x]);
    } else {
        assert(Seq::<PortRecord>::empty() + Seq::<PortRecord>::empty() =~= Seq::<PortRecord>::empty());
    }
}

/// A filter that holds a shorter one shows a part of what the shorter one shows: its list is
/// the shorter filter's list filtered further.
pub proof fn lemma_longer_filter_narrows(
    ports: Seq<PortRecord>,
    shorter_lower: Seq<char>,
    longer_lower: Seq<char>,
)
    requires
        contains_seq(longer_lower, shorter_lower),
    ensures
        ports_matching(ports, longer_lower) == ports_matching(
            ports_matching(ports, shorter_lower),
            longer_lower,
        ),
    decreases ports.len(),
{
    if ports.len() > 0 {
        let init = ports.drop_last();
        let x = ports.last();
        lemma_longer_filter_narrows(init, shorter_lower, longer_lower);
        let t1 = if port_matches(x, shorter_lower) {
            seq![x]
        } else {
            seq![]
        };
        lemma_ports_matching_concat(ports_matching(init, shorter_lower), t1, longer_lower);
        if port_matches(x, longer_lower) {
            if contains_seq(lowercase(x.port), longer_lower) {
                lemma_contains_transitive(lowercase(x.port), longer_lower, shorter_lower);
            } else if contains_seq(lowercase(x.process), longer_lower) {
                lemma_contains_transitive(lowercase(x.process), longer_lower, shorter_lower);
            } else if contains_seq(lowercase(x.protocol), longer_lower) {
                lemma_contains_transitive(lowercase(x.protocol), longer_lower, shorter_lower);
            } else {
                lemma_contains_transitive(lowercase(x.local_address), longer_lower, shorter_lower);
            }
            assert(port_matches(x, shorter_lower));
            assert(t1 == seq![x]);
        }
        lemma_ports_matching_single(x, longer_lower);
        if !port_matches(x, shorter_lower) {
            assert(ports_matching(t1, longer_lower) == Seq::<PortRecord>::empty());
        }
        assert(ports_matching(t1, longer_lower) == if port_matches(x, longer_lower) {
            seq![x]
        } else {
            Seq::<PortRecord>::empty()
        });
    }
}

proof fn lemma_ports_matching_empty_filter(ports: Seq<PortRecord>)
    ensures
        ports_matching(ports, seq![]) == ports,
    decreases ports.len(),
{
    if ports.len() > 0 {
        lemma_ports_matching_empty_filter(ports.drop_last());
        assert(occurs_at(lowercase(ports.last().port), seq![], 0)) by {
            assert(lowercase(ports.last().port).subrange(0, 0) =~= Seq::<char>::empty());
        }
        assert(ports.drop_last().push(ports.last()) =~= ports);
    }
}

/// Typing more into a filter narrows the ports shown: when the lower-cased longer filter
/// holds the lower-cased shorter one, the ports shown for the longer filter are those shown
/// for the shorter one, filtered further. The premises on emptiness are what
/// `to_lowercase` guarantees of every text (its result is empty exactly when the text is);
/// a proof cannot call it, so they stand as premises here.
pub proof fn lemma_shown_ports_narrow(ports: Seq<PortRecord>, shorter: Seq<char>, longer: Seq<char>)
    requires
        lowercase(shorter).len() == 0 <==> shorter.len() == 0,
        lowercase(longer).len() == 0 <==> longer.len() == 0,
        contains_seq(lowercase(longer), lowercase(shorter)),
    ensures
        ports_shown(ports, longer) == ports_matching(ports_shown(ports, shorter), lowercase(longer)),
{
    if longer.len() == 0 {
        let i = choose|i: int| occurs_at(lowercase(longer), lowercase(shorter), i);
        assert(lowercase(shorter).len() == 0);
        assert(lowercase(longer) =~= Seq::<char>::empty());
        lemma_ports_matching_empty_filter(ports);
    } else if shorter.len() > 0 {
        lemma_longer_filter_narrows(ports, lowercase(shorter), lowercase(longer));
    }
}

/// After entering a plain subdirectory of a directory in plain form, the listing starts with
/// the entry `..`.
pub proof fn lemma_entered_directory_lists_parent_first(
    base: Seq<char>,
    name: Seq<char>,
    listing: Seq<char>,
)
    requires
        clean_absolute(base),
        plain_component(name),
    ensures
        files_shown(joined_path(base, name), listing).len() > 0,
        files_shown(joined_path(base, name), listing)[0] == parent_entry(),
        parent_entry().name == ".."@,
        parent_entry().is_directory,
{
    lemma_join_then_parent(base, name);
    reveal_strlit("..");
    assert(parent_entry().name =~= ".."@);
}

/// At the root no `..` entry is added.
pub proof fn lemma_root_lists_no_parent(listing: Seq<char>)
    ensures
        files_shown(seq!['/'], listing) == files_of_lines(body_lines(listing)),
{
    assert(path_is_root(seq!['/']));
}

} // verus!
