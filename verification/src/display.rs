use vstd::prelude::*;

use crate::records::{FileInfo, FileRecord, NetworkInfo, PortInfo, PortRecord, ServiceInfo, ServiceRecord, SystemInfo};
use crate::state::{AppState, FileOperation};
use crate::text::{decimal, decimal_string, same_text};
use crate::units::{byte_size_text, format_bytes};

verus! {

/// The line shown for a directory entry: an icon for directory or file, then name, size,
/// date and permissions.
pub open spec fn file_row_text(f: FileRecord) -> Seq<char> {
    (if f.is_directory {
        "📁"@
    } else {
        "📄"@
    }) + " "@ + f.name + " "@ + f.size + " "@ + f.date + " "@ + f.permissions
}

/// The line shown for a port.
pub open spec fn port_row_text(p: PortRecord) -> Seq<char> {
    "🌐 "@ + p.protocol + ":"@ + p.port + " "@ + p.process + " "@ + p.local_address + " "@
        + p.state + " [PID: "@ + p.pid + "]"@
}

/// The line shown for a service: a play icon when it runs, a stop icon otherwise.
pub open spec fn service_row_text(s: ServiceRecord) -> Seq<char> {
    (if s.status == "Running"@ {
        "▶️"@
    } else {
        "⏹️"@
    }) + " "@ + s.name + " "@ + s.status + " "@ + s.pid
}

/// The uptime shown for a number of seconds: whole days.
pub open spec fn uptime_text(seconds: nat) -> Seq<char> {
    decimal(seconds / 86400) + " days"@
}

/// The line shown for a directory entry.
pub fn file_row(f: &FileInfo) -> (r: String)
    ensures
        r@ == file_row_text(f@),
{
    let mut s = if f.is_directory {
        String::from_str("📁")
    } else {
        String::from_str("📄")
    };
    s.append(" ");
    s.append(f.name.as_str());
    s.append(" ");
    s.append(f.size.as_str());
    s.append(" ");
    s.append(f.date.as_str());
    s.append(" ");
    s.append(f.permissions.as_str());
    s
}

/// The line shown for a port.
pub fn port_row(p: &PortInfo) -> (r: String)
    ensures
        r@ == port_row_text(p@),
{
    let mut s = String::from_str("🌐 ");
    s.append(p.protocol.as_str());
    s.append(":");
    s.append(p.port.as_str());
    s.append(" ");
    s.append(p.process.as_str());
    s.append(" ");
    s.append(p.local_address.as_str());
    s.append(" ");
    s.append(p.state.as_str());
    s.append(" [PID: ");
    s.append(p.pid.as_str());
    s.append("]");
    s
}

/// The line shown for a service.
pub fn service_row(sv: &ServiceInfo) -> (r: String)
    ensures
        r@ == service_row_text(sv@),
{
    let mut s = if same_text(sv.status.as_str(), "Running") {
        String::from_str("▶️")
    } else {
        String::from_str("⏹️")
    };
    s.append(" ");
    s.append(sv.name.as_str());
    s.append(" ");
    s.append(sv.status.as_str());
    s.append(" ");
    s.append(sv.pid.as_str());
    s
}

/// The cells shown for an interface: its name and the bytes received and transmitted.
pub fn network_row(n: &NetworkInfo) -> (r: (String, String, String))
    ensures
        r.0@ == n.interface@,
        r.1@ == byte_size_text(n.received_bytes as nat),
        r.2@ == byte_size_text(n.transmitted_bytes as nat),
{
    (n.interface.clone(), format_bytes(n.received_bytes), format_bytes(n.transmitted_bytes))
}

/// The uptime shown for a number of seconds.
pub fn format_uptime(seconds: u64) -> (r: String)
    ensures
        r@ == uptime_text(seconds as nat),
{
    let mut s = decimal_string(seconds / 86400);
    s.append(" days");
    s
}

impl SystemInfo {
    /// The machine facts as shown: a missing host name or system version reads `Unknown`,
    /// and the uptime is given in whole days.
    pub fn from_readings(
        hostname: Option<String>,
        uptime_seconds: u64,
        cpu_count: usize,
        os_version: Option<String>,
    ) -> (r: SystemInfo)
        ensures
            r.hostname@ == match hostname {
                Some(h) => h@,
                None => "Unknown"@,
            },
            r.uptime@ == uptime_text(uptime_seconds as nat),
            r.cpu_count == cpu_count,
            r.os_version@ == match os_version {
                Some(v) => v@,
                None => "Unknown"@,
            },
    {
        let hostname = match hostname {
            Some(h) => h,
            None => String::from_str("Unknown"),
        };
        let os_version = match os_version {
            Some(v) => v,
            None => String::from_str("Unknown"),
        };
        SystemInfo { hostname, uptime: format_uptime(uptime_seconds), cpu_count, os_version }
    }
}

/// The title of the port list for a filter text and filter mode.
pub open spec fn ports_title_text(filter: Seq<char>, filter_mode: bool) -> Seq<char> {
    if filter_mode {
        "Network Ports (Filter: '"@ + filter + "' | Press Enter to apply, Esc to cancel)"@
    } else if filter.len() == 0 {
        "Network Ports (Press 'k' to kill, '/' to filter)"@
    } else {
        "Network Ports (Filtered: '"@ + filter + "' | Press '/' to filter, Esc to clear)"@
    }
}

/// The footer shown by default.
pub open spec fn default_footer() -> Seq<char> {
    "Press 'h' for help, 'q' to quit, ':' for command line, 'r' to refresh, arrow keys to navigate"@
}

/// The footer shown when help is on.
pub open spec fn help_footer() -> Seq<char> {
    "Help: q=quit, h=toggle help, r=refresh, : =command, ↑↓=navigate, ←→/Tab=tabs, Enter=open dir, c=copy, m=move, d=delete (Files), k=kill, K=terminate, s/S=start/stop service, /=filter (Ports)"@
}

/// The seven lines of machine facts and total counts (all ports, whatever the filter shows),
/// the fourth labelled `os_label`.
pub open spec fn facts_text(s: AppState, os_label: Seq<char>) -> Seq<char> {
    "Hostname: "@ + s.system_info.hostname@ + "\n"@ + "Uptime: "@ + s.system_info.uptime@ + "\n"@
        + "CPU Cores: "@ + decimal(s.system_info.cpu_count as nat) + "\n"@ + os_label
        + s.system_info.os_version@ + "\n"@ + "Processes: "@ + decimal(s.processes@.len())
        + "\n"@ + "Ports: "@ + decimal(s.all_ports@.len()) + "\n"@ + "Services: "@ + decimal(
        s.services@.len(),
    )
}

/// The facts end with the three count lines, each showing its own count: the number of
/// processes, of all ports and of services, in that order.
pub proof fn lemma_facts_show_counts(s: AppState, os_label: Seq<char>)
    ensures
        ({
            let text = facts_text(s, os_label);
            let tail = "\nProcesses: "@ + decimal(s.processes@.len()) + "\nPorts: "@ + decimal(
                s.all_ports@.len(),
            ) + "\nServices: "@ + decimal(s.services@.len());
            &&& text.len() >= tail.len()
            &&& text.subrange(text.len() - tail.len(), text.len() as int) == tail
        }),
{
    reveal_strlit("\n");
    reveal_strlit("Processes: ");
    reveal_strlit("Ports: ");
    reveal_strlit("Services: ");
    reveal_strlit("\nProcesses: ");
    reveal_strlit("\nPorts: ");
    reveal_strlit("\nServices: ");
    let text = facts_text(s, os_label);
    let head = "Hostname: "@ + s.system_info.hostname@ + "\n"@ + "Uptime: "@
        + s.system_info.uptime@ + "\n"@ + "CPU Cores: "@ + decimal(s.system_info.cpu_count as nat)
        + "\n"@ + os_label + s.system_info.os_version@;
    let tail = "\nProcesses: "@ + decimal(s.processes@.len()) + "\nPorts: "@ + decimal(
        s.all_ports@.len(),
    ) + "\nServices: "@ + decimal(s.services@.len());
    assert(text =~= head + tail);
    assert((head + tail).subrange(head.len() as int, (head + tail).len() as int) =~= tail);
}

fn count_string(n: usize) -> (r: String)
    ensures
        r@ == decimal(n as nat),
{
    decimal_string(n as u64)
}

impl AppState {
    /// The title of the port list.
    pub fn ports_title(&self) -> (r: String)
        ensures
            r@ == ports_title_text(self.port_filter@, self.port_filter_mode),
    {
        if self.port_filter_mode {
            let mut s = String::from_str("Network Ports (Filter: '");
            s.append(self.port_filter.as_str());
            s.append("' | Press Enter to apply, Esc to cancel)");
            s
        } else if self.port_filter.as_str().is_empty() {
            String::from_str("Network Ports (Press 'k' to kill, '/' to filter)")
        } else {
            let mut s = String::from_str("Network Ports (Filtered: '");
            s.append(self.port_filter.as_str());
            s.append("' | Press '/' to filter, Esc to clear)");
            s
        }
    }

    /// The title of the file list, naming the current directory.
    pub fn files_title(&self) -> (r: String)
        ensures
            r@ == "Files ("@ + self.current_path@ + ")"@,
    {
        let mut s = String::from_str("Files (");
        s.append(self.current_path.as_str());
        s.append(")");
        s
    }

    /// The input line shown on the command line or while a file operation waits: the
    /// command after a colon, the message and destination for a copy or move, the message
    /// for a deletion; none otherwise.
    pub fn input_line(&self) -> (r: Option<String>)
        ensures
            match r {
                None => !self.command_mode && self.file_operation is None,
                Some(t) => if self.command_mode {
                    t@ == ":"@ + self.command_line@
                } else {
                    match self.file_operation {
                        Some(FileOperation::Delete(_)) => t@ == self.message@,
                        Some(_) => t@ == self.message@ + " Destination: "@ + self.command_line@,
                        None => false,
                    }
                },
            },
    {
        if self.command_mode {
            let mut s = String::from_str(":");
            s.append(self.command_line.as_str());
            Some(s)
        } else {
            match &self.file_operation {
                Some(FileOperation::Delete(_)) => Some(self.message.clone()),
                Some(_) => {
                    let mut s = self.message.clone();
                    s.append(" Destination: ");
                    s.append(self.command_line.as_str());
                    Some(s)
                },
                None => None,
            }
        }
    }

    /// The footer: the status message when there is one and no input is open, else the help
    /// text when help is on, else the default hints.
    pub fn footer_text(&self) -> (r: String)
        ensures
            r@ == if self.message@.len() > 0 && !self.command_mode
                && self.file_operation is None {
                self.message@
            } else if self.show_help {
                help_footer()
            } else {
                default_footer()
            },
    {
        if !self.message.as_str().is_empty() && !self.command_mode && self.file_operation.is_none() {
            self.message.clone()
        } else if self.show_help {
            String::from_str(
                "Help: q=quit, h=toggle help, r=refresh, : =command, ↑↓=navigate, ←→/Tab=tabs, Enter=open dir, c=copy, m=move, d=delete (Files), k=kill, K=terminate, s/S=start/stop service, /=filter (Ports)",
            )
        } else {
            String::from_str(
                "Press 'h' for help, 'q' to quit, ':' for command line, 'r' to refresh, arrow keys to navigate",
            )
        }
    }

    fn facts(&self, os_label: &str) -> (r: String)
        ensures
            r@ == facts_text(*self, os_label@),
    {
        let mut s = String::from_str("Hostname: ");
        s.append(self.system_info.hostname.as_str());
        s.append("\n");
        s.append("Uptime: ");
        s.append(self.system_info.uptime.as_str());
        s.append("\n");
        s.append("CPU Cores: ");
        s.append(count_string(self.system_info.cpu_count).as_str());
        s.append("\n");
        s.append(os_label);
        s.append(self.system_info.os_version.as_str());
        s.append("\n");
        s.append("Processes: ");
        s.append(count_string(self.processes.len()).as_str());
        s.append("\n");
        s.append("Ports: ");
        s.append(count_string(self.all_ports.len()).as_str());
        s.append("\n");
        s.append("Services: ");
        s.append(count_string(self.services.len()).as_str());
        s
    }

    /// The machine facts and counts on the Dashboard.
    pub fn dashboard_facts(&self) -> (r: String)
        ensures
            r@ == facts_text(*self, "OS: "@),
    {
        self.facts("OS: ")
    }

    /// The machine facts and counts on the System tab.
    pub fn system_facts(&self) -> (r: String)
        ensures
            r@ == facts_text(*self, "OS Version: "@),
    {
        self.facts("OS Version: ")
    }
}

} // verus!
