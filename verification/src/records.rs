use vstd::prelude::*;

verus! {

/// A network port in use, as `lsof` reports it.
pub struct PortInfo {
    pub port: String,
    pub protocol: String,
    pub process: String,
    pub local_address: String,
    pub state: String,
    pub pid: String,
}

/// The text of each field of a [`PortInfo`].
pub struct PortRecord {
    pub port: Seq<char>,
    pub protocol: Seq<char>,
    pub process: Seq<char>,
    pub local_address: Seq<char>,
    pub state: Seq<char>,
    pub pid: Seq<char>,
}

impl View for PortInfo {
    type V = PortRecord;

    open spec fn view(&self) -> PortRecord {
        PortRecord {
            port: self.port@,
            protocol: self.protocol@,
            process: self.process@,
            local_address: self.local_address@,
            state: self.state@,
            pid: self.pid@,
        }
    }
}

impl PortInfo {
    /// A copy of this entry.
    pub fn duplicate(&self) -> (r: PortInfo)
        ensures
            r == *self,
    {
        PortInfo {
            port: self.port.clone(),
            protocol: self.protocol.clone(),
            process: self.process.clone(),
            local_address: self.local_address.clone(),
            state: self.state.clone(),
            pid: self.pid.clone(),
        }
    }
}

/// An entry of a directory listing, as `ls -la` reports it.
pub struct FileInfo {
    pub name: String,
    pub size: String,
    pub date: String,
    pub permissions: String,
    pub is_directory: bool,
}

/// The text of each field of a [`FileInfo`].
pub struct FileRecord {
    pub name: Seq<char>,
    pub size: Seq<char>,
    pub date: Seq<char>,
    pub permissions: Seq<char>,
    pub is_directory: bool,
}

impl View for FileInfo {
    type V = FileRecord;

    open spec fn view(&self) -> FileRecord {
        FileRecord {
            name: self.name@,
            size: self.size@,
            date: self.date@,
            permissions: self.permissions@,
            is_directory: self.is_directory,
        }
    }
}

/// A service known to `launchctl`.
pub struct ServiceInfo {
    pub name: String,
    pub status: String,
    pub pid: String,
}

/// The text of each field of a [`ServiceInfo`].
pub struct ServiceRecord {
    pub name: Seq<char>,
    pub status: Seq<char>,
    pub pid: Seq<char>,
}

impl View for ServiceInfo {
    type V = ServiceRecord;

    open spec fn view(&self) -> ServiceRecord {
        ServiceRecord { name: self.name@, status: self.status@, pid: self.pid@ }
    }
}

/// A network interface with its traffic counters.
pub struct NetworkInfo {
    pub interface: String,
    pub received_bytes: u64,
    pub transmitted_bytes: u64,
}

/// A running process. The processor and memory figures are held as the text shown for
/// them.
pub struct ProcessInfo {
    pub pid: String,
    pub name: String,
    pub cpu: String,
    pub memory: String,
    pub user: String,
}

/// Facts about the machine.
pub struct SystemInfo {
    pub hostname: String,
    pub uptime: String,
    pub cpu_count: usize,
    pub os_version: String,
}

} // verus!
