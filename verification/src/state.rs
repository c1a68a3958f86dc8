use vstd::prelude::*;

use crate::records::{FileInfo, NetworkInfo, PortInfo, ProcessInfo, ServiceInfo, SystemInfo};

verus! {

/// The tabs of the dashboard, in the order in which they are cycled through.
#[derive(PartialEq, Eq, Structural, Clone, Copy, Debug)]
pub enum Tab {
    Dashboard,
    Files,
    Processes,
    Network,
    Ports,
    Services,
    System,
    Tools,
    Settings,
}

/// The tab after `t`, wrapping from the last to the first.
pub open spec fn tab_after(t: Tab) -> Tab {
    match t {
        Tab::Dashboard => Tab::Files,
        Tab::Files => Tab::Processes,
        Tab::Processes => Tab::Network,
        Tab::Network => Tab::Ports,
        Tab::Ports => Tab::Services,
        Tab::Services => Tab::System,
        Tab::System => Tab::Tools,
        Tab::Tools => Tab::Settings,
        Tab::Settings => Tab::Dashboard,
    }
}

/// The tab before `t`, wrapping from the first to the last.
pub open spec fn tab_before(t: Tab) -> Tab {
    match t {
        Tab::Dashboard => Tab::Settings,
        Tab::Files => Tab::Dashboard,
        Tab::Processes => Tab::Files,
        Tab::Network => Tab::Processes,
        Tab::Ports => Tab::Network,
        Tab::Services => Tab::Ports,
        Tab::System => Tab::Services,
        Tab::Tools => Tab::System,
        Tab::Settings => Tab::Tools,
    }
}

/// `tab_after` applied `n` times.
pub open spec fn tab_after_times(t: Tab, n: nat) -> Tab
    decreases n,
{
    if n == 0 {
        t
    } else {
        tab_after_times(tab_after(t), (n - 1) as nat)
    }
}

/// Going to the previous tab undoes going to the next one, and the other way round.
pub proof fn lemma_tab_steps_undo(t: Tab)
    ensures
        tab_before(tab_after(t)) == t,
        tab_after(tab_before(t)) == t,
{
}

/// Going to the next tab nine times comes back to the tab one started from, and no fewer
/// steps do.
pub proof fn lemma_tab_cycle(t: Tab)
    ensures
        tab_after_times(t, 9) == t,
        forall|n: nat| 0 < n < 9 ==> tab_after_times(t, n) != t,
{
    reveal_with_fuel(tab_after_times, 10);
    assert forall|n: nat| 0 < n < 9 implies tab_after_times(t, n) != t by {
        if n == 1 {
        } else if n == 2 {
        } else if n == 3 {
        } else if n == 4 {
        } else if n == 5 {
        } else if n == 6 {
        } else if n == 7 {
        } else {
        }
    }
}

/// The selection after moving up one entry.
pub open spec fn index_after_up(i: nat) -> nat {
    if i > 0 {
        (i - 1) as nat
    } else {
        i
    }
}

/// The selection after moving down one entry in a list of `len` entries: one further, unless
/// that would pass the last entry.
pub open spec fn index_after_down(i: nat, len: nat) -> nat {
    let max_index: nat = if len > 0 {
        (len - 1) as nat
    } else {
        0
    };
    if i < max_index {
        i + 1
    } else {
        i
    }
}

/// The selection brought inside a list of `len` entries: the last entry when it was past the
/// end, and 0 for an empty list.
pub open spec fn clamped_index(i: nat, len: nat) -> nat {
    if len == 0 {
        0
    } else if i >= len {
        (len - 1) as nat
    } else {
        i
    }
}

/// A selection brought inside a list stays inside it, and one that was inside is kept.
pub proof fn lemma_clamp_in_range(i: nat, len: nat)
    ensures
        len > 0 ==> clamped_index(i, len) < len,
        len == 0 ==> clamped_index(i, len) == 0,
        i < len ==> clamped_index(i, len) == i,
        clamped_index(clamped_index(i, len), len) == clamped_index(i, len),
{
}

/// Moving up and down keeps a selection inside its list, and moving down undoes moving up
/// from any entry but the first.
pub proof fn lemma_moves_in_range(i: nat, len: nat)
    ensures
        i < len ==> index_after_up(i) < len && index_after_down(i, len) < len,
        0 < i < len ==> index_after_down(index_after_up(i), len) == i,
        i + 1 < len ==> index_after_up(index_after_down(i, len)) == i,
{
}

/// The list of a tab is what it shows: on the Files tab its length is the number of file
/// entries, and likewise for processes, interfaces, ports that pass the filter and services;
/// the System and Tools tabs have six and eight lines, the Dashboard and Settings none.
pub proof fn lemma_list_len_counts_entries(s: AppState)
    ensures
        s.current_tab == Tab::Files ==> s.list_len() == s.files@.len(),
        s.current_tab == Tab::Processes ==> s.list_len() == s.processes@.len(),
        s.current_tab == Tab::Network ==> s.list_len() == s.networks@.len(),
        s.current_tab == Tab::Ports ==> s.list_len() == s.ports@.len(),
        s.current_tab == Tab::Services ==> s.list_len() == s.services@.len(),
        s.current_tab == Tab::System ==> s.list_len() == 6,
        s.current_tab == Tab::Tools ==> s.list_len() == 8,
        s.current_tab == Tab::Dashboard || s.current_tab == Tab::Settings ==> s.list_len() == 0,
{
}

/// Moving down from any entry but the last of the current list selects the next entry, and
/// from the last entry it stays.
pub proof fn lemma_down_reaches_every_entry(i: nat, len: nat)
    ensures
        i + 1 < len ==> index_after_down(i, len) == i + 1,
        i + 1 >= len ==> index_after_down(i, len) == i,
{
}

/// A request to copy, move or delete the file at the given path.
pub enum FileOperation {
    Copy(String),
    Move(String),
    Delete(String),
}

impl FileOperation {
    /// A copy of this request.
    pub fn duplicate(&self) -> (r: FileOperation)
        ensures
            r == *self,
    {
        match self {
            FileOperation::Copy(p) => FileOperation::Copy(p.clone()),
            FileOperation::Move(p) => FileOperation::Move(p.clone()),
            FileOperation::Delete(p) => FileOperation::Delete(p.clone()),
        }
    }
}

/// Everything the dashboard shows and the modes of its input.
pub struct AppState {
    pub current_tab: Tab,
    pub selected_index: usize,
    pub show_help: bool,
    pub processes: Vec<ProcessInfo>,
    pub networks: Vec<NetworkInfo>,
    /// The ports that pass the filter.
    pub ports: Vec<PortInfo>,
    /// All ports, before filtering.
    pub all_ports: Vec<PortInfo>,
    pub files: Vec<FileInfo>,
    pub services: Vec<ServiceInfo>,
    pub system_info: SystemInfo,
    /// The directory that the file browser shows.
    pub current_path: String,
    /// The text that ports are filtered by.
    pub port_filter: String,
    /// Whether keys are typed into the port filter.
    pub port_filter_mode: bool,
    /// The text typed on the command line, or the destination of a copy or move.
    pub command_line: String,
    /// Whether keys are typed into the command line.
    pub command_mode: bool,
    /// The file operation waiting for a destination or a confirmation.
    pub file_operation: Option<FileOperation>,
    /// The status message.
    pub message: String,
}

impl AppState {
    /// The number of entries in the list of the current tab; the System and Tools tabs show
    /// six and eight fixed lines, the others none.
    pub open spec fn list_len(&self) -> nat {
        match self.current_tab {
            Tab::Files => self.files@.len(),
            Tab::Processes => self.processes@.len(),
            Tab::Network => self.networks@.len(),
            Tab::Ports => self.ports@.len(),
            Tab::Services => self.services@.len(),
            Tab::System => 6,
            Tab::Tools => 8,
            _ => 0,
        }
    }

    /// The state before any data has been read: Dashboard tab, first entry, no lists, the
    /// file browser at `/`, all inputs empty and off.
    pub fn new() -> (s: AppState)
        ensures
            s.current_tab == Tab::Dashboard,
            s.selected_index == 0,
            !s.show_help,
            s.processes@.len() == 0,
            s.networks@.len() == 0,
            s.ports@.len() == 0,
            s.all_ports@.len() == 0,
            s.files@.len() == 0,
            s.services@.len() == 0,
            s.system_info.hostname@ == "Unknown"@,
            s.system_info.uptime@ == "Unknown"@,
            s.system_info.cpu_count == 0,
            s.system_info.os_version@ == "Unknown"@,
            s.current_path@ == "/"@,
            s.port_filter@.len() == 0,
            !s.port_filter_mode,
            s.command_line@.len() == 0,
            !s.command_mode,
            s.file_operation is None,
            s.message@.len() == 0,
    {
        AppState {
            current_tab: Tab::Dashboard,
            selected_index: 0,
            show_help: false,
            processes: Vec::new(),
            networks: Vec::new(),
            ports: Vec::new(),
            all_ports: Vec::new(),
            files: Vec::new(),
            services: Vec::new(),
            system_info: SystemInfo {
                hostname: String::from_str("Unknown"),
                uptime: String::from_str("Unknown"),
                cpu_count: 0,
                os_version: String::from_str("Unknown"),
            },
            current_path: String::from_str("/"),
            port_filter: String::new(),
            port_filter_mode: false,
            command_line: String::new(),
            command_mode: false,
            file_operation: None,
            message: String::new(),
        }
    }

    /// The number of entries in the list of the current tab.
    pub fn get_current_list_len(&self) -> (r: usize)
        ensures
            r == self.list_len(),
            self.current_tab == Tab::Files ==> r == self.files@.len(),
            self.current_tab == Tab::Processes ==> r == self.processes@.len(),
            self.current_tab == Tab::Network ==> r == self.networks@.len(),
            self.current_tab == Tab::Ports ==> r == self.ports@.len(),
            self.current_tab == Tab::Services ==> r == self.services@.len(),
    {
        match self.current_tab {
            Tab::Files => self.files.len(),
            Tab::Processes => self.processes.len(),
            Tab::Network => self.networks.len(),
            Tab::Ports => self.ports.len(),
            Tab::Services => self.services.len(),
            Tab::System => 6,
            Tab::Tools => 8,
            _ => 0,
        }
    }

    /// Selects the entry above, if any.
    pub fn move_up(&mut self)
        ensures
            final(self).selected_index == index_after_up(old(self).selected_index as nat),
            *final(self) == (AppState { selected_index: final(self).selected_index, ..*old(self) }),
    {
        if self.selected_index > 0 {
            self.selected_index -= 1;
        }
    }

    /// Selects the entry below, unless the last entry is selected.
    pub fn move_down(&mut self)
        ensures
            final(self).selected_index == index_after_down(
                old(self).selected_index as nat,
                old(self).list_len(),
            ),
            old(self).selected_index + 1 < old(self).list_len() ==> final(self).selected_index
                == old(self).selected_index + 1,
            old(self).selected_index + 1 >= old(self).list_len() ==> final(self).selected_index
                == old(self).selected_index,
            *final(self) == (AppState { selected_index: final(self).selected_index, ..*old(self) }),
    {
        let max_index = self.get_current_list_len().saturating_sub(1);
        if self.selected_index < max_index {
            self.selected_index += 1;
        }
    }

    /// Goes to the next tab, selecting its first entry.
    pub fn next_tab(&mut self)
        ensures
            *final(self) == (AppState {
                current_tab: tab_after(old(self).current_tab),
                selected_index: 0,
                ..*old(self)
            }),
    {
        self.current_tab = match self.current_tab {
            Tab::Dashboard => Tab::Files,
            Tab::Files => Tab::Processes,
            Tab::Processes => Tab::Network,
            Tab::Network => Tab::Ports,
            Tab::Ports => Tab::Services,
            Tab::Services => Tab::System,
            Tab::System => Tab::Tools,
            Tab::Tools => Tab::Settings,
            Tab::Settings => Tab::Dashboard,
        };
        self.selected_index = 0;
    }

    /// Goes to the previous tab, selecting its first entry.
    pub fn prev_tab(&mut self)
        ensures
            *final(self) == (AppState {
                current_tab: tab_before(old(self).current_tab),
                selected_index: 0,
                ..*old(self)
            }),
    {
        self.current_tab = match self.current_tab {
            Tab::Dashboard => Tab::Settings,
            Tab::Files => Tab::Dashboard,
            Tab::Processes => Tab::Files,
            Tab::Network => Tab::Processes,
            Tab::Ports => Tab::Network,
            Tab::Services => Tab::Ports,
            Tab::System => Tab::Services,
            Tab::Tools => Tab::System,
            Tab::Settings => Tab::Tools,
        };
        self.selected_index = 0;
    }

    /// Brings the selection inside the list of the current tab.
    pub fn clamp_selected_index(&mut self)
        ensures
            final(self).list_len() > 0 ==> final(self).selected_index < final(self).list_len(),
            final(self).selected_index == clamped_index(
                old(self).selected_index as nat,
                old(self).list_len(),
            ),
            *final(self) == (AppState { selected_index: final(self).selected_index, ..*old(self) }),
    {
        let len = self.get_current_list_len();
        if len == 0 {
            self.selected_index = 0;
        } else if self.selected_index >= len {
            self.selected_index = len - 1;
        }
    }
}

} // verus!
