use peek::lists::Readings;
use peek::records::{NetworkInfo, PortInfo, ProcessInfo, SystemInfo};
use peek::state::{AppState, Tab};

fn port(port: &str, protocol: &str, process: &str, local: &str, pid: &str) -> PortInfo {
    PortInfo {
        port: port.to_string(),
        protocol: protocol.to_string(),
        process: process.to_string(),
        local_address: local.to_string(),
        state: "LISTEN".to_string(),
        pid: pid.to_string(),
    }
}

fn process(pid: &str) -> ProcessInfo {
    ProcessInfo {
        pid: pid.to_string(),
        name: "p".to_string(),
        cpu: "0.0%".to_string(),
        memory: "1.0MB".to_string(),
        user: "501".to_string(),
    }
}

fn net(name: &str, rx: u64, tx: u64) -> NetworkInfo {
    NetworkInfo { interface: name.to_string(), received_bytes: rx, transmitted_bytes: tx }
}

#[test]
fn new_state_defaults() {
    let s = AppState::new();
    assert_eq!(s.current_tab, Tab::Dashboard);
    assert_eq!(s.selected_index, 0);
    assert_eq!(s.current_path, "/");
    assert_eq!(s.system_info.hostname, "Unknown");
    assert!(s.file_operation.is_none());
    assert_eq!(s.get_current_list_len(), 0);
}

#[test]
fn tabs_cycle_forward_and_back() {
    let mut s = AppState::new();
    s.selected_index = 3;
    s.next_tab();
    assert_eq!(s.current_tab, Tab::Files);
    assert_eq!(s.selected_index, 0);
    s.prev_tab();
    assert_eq!(s.current_tab, Tab::Dashboard);
    s.prev_tab();
    assert_eq!(s.current_tab, Tab::Settings);
    for _ in 0..9 {
        s.next_tab();
    }
    assert_eq!(s.current_tab, Tab::Settings);
}

#[test]
fn fixed_tab_lengths_and_moves() {
    let mut s = AppState::new();
    s.current_tab = Tab::System;
    assert_eq!(s.get_current_list_len(), 6);
    for _ in 0..10 {
        s.move_down();
    }
    assert_eq!(s.selected_index, 5);
    s.move_up();
    assert_eq!(s.selected_index, 4);
    s.current_tab = Tab::Tools;
    assert_eq!(s.get_current_list_len(), 8);
    s.current_tab = Tab::Settings;
    assert_eq!(s.get_current_list_len(), 0);
    s.move_down();
    assert_eq!(s.selected_index, 4);
    s.clamp_selected_index();
    assert_eq!(s.selected_index, 0);
    s.move_up();
    assert_eq!(s.selected_index, 0);
}

#[test]
fn clamp_brings_selection_to_last_entry() {
    let mut s = AppState::new();
    s.current_tab = Tab::Processes;
    s.selected_index = 7;
    s.refresh_processes(vec![process("1"), process("2"), process("3")]);
    assert_eq!(s.selected_index, 2);
    assert_eq!(s.processes.len(), 3);
}

#[test]
fn port_filter_is_case_insensitive_and_empty_shows_all() {
    let mut s = AppState::new();
    s.all_ports = vec![
        port("8080", "TCP", "Python", "*:8080", "10"),
        port("53", "UDP", "dnsmasq", "127.0.0.1:53", "11"),
        port("443", "TCP", "Chrome", "10.0.0.2:51000", "12"),
    ];
    s.apply_port_filter();
    assert_eq!(s.ports.len(), 3);
    s.port_filter = "PYTH".to_string();
    s.apply_port_filter();
    assert_eq!(s.ports.len(), 1);
    assert_eq!(s.ports[0].process, "Python");
    s.port_filter = "tcp".to_string();
    s.apply_port_filter();
    let names: Vec<&str> = s.ports.iter().map(|p| p.process.as_str()).collect();
    assert_eq!(names, vec!["Python", "Chrome"]);
    s.port_filter = "127.0".to_string();
    s.apply_port_filter();
    assert_eq!(s.ports.len(), 1);
    assert_eq!(s.ports[0].pid, "11");
}

#[test]
fn networks_sorted_by_received_then_transmitted() {
    let mut s = AppState::new();
    s.refresh_networks(vec![net("lo0", 10, 5), net("en0", 100, 1), net("en1", 10, 9), net("utun", 10, 5)]);
    let names: Vec<&str> = s.networks.iter().map(|n| n.interface.as_str()).collect();
    assert_eq!(names, vec!["en0", "en1", "lo0", "utun"]);
}

#[test]
fn files_refresh_adds_parent_entry_off_root() {
    let listing = "total 8\ndrwxr-xr-x  3 a b  96 Jan 1 10:00 docs\n-rw-r--r--  1 a b  10 Jan 1 10:00 a.txt\n";
    let mut s = AppState::new();
    s.refresh_files(listing);
    let names: Vec<&str> = s.files.iter().map(|f| f.name.as_str()).collect();
    assert_eq!(names, vec!["docs", "a.txt"]);
    s.current_path = "/Users".to_string();
    s.refresh_files(listing);
    let names: Vec<&str> = s.files.iter().map(|f| f.name.as_str()).collect();
    assert_eq!(names, vec!["..", "docs", "a.txt"]);
    assert_eq!(s.files[0].size, "DIR");
    assert_eq!(s.files[0].permissions, "d");
    assert!(s.files[0].is_directory);
}

#[test]
fn refresh_ports_and_services_from_output() {
    let lsof = "COMMAND PID USER FD TYPE DEVICE SIZE/OFF NODE NAME\nnode 42 me 20u IPv4 0x1 0t0 TCP *:3000 (LISTEN)\nshort line\n";
    let launchctl = "PID\tStatus\tLabel\n-\t0\tcom.a\n77\t0\tcom.b\n";
    let mut s = AppState::new();
    s.refresh_ports(lsof);
    assert_eq!(s.all_ports.len(), 1);
    assert_eq!(s.ports.len(), 1);
    assert_eq!(s.ports[0].port, "3000");
    s.refresh_services(launchctl);
    assert_eq!(s.services.len(), 2);
    assert_eq!(s.services[0].status, "Stopped");
    assert_eq!(s.services[1].status, "Running");
}

#[test]
fn refresh_data_sets_everything_and_clamps() {
    let mut s = AppState::new();
    s.current_tab = Tab::Services;
    s.selected_index = 9;
    let readings = Readings {
        processes: vec![process("1")],
        networks: vec![net("a", 1, 1)],
        lsof_output: String::new(),
        ls_output: String::new(),
        launchctl_output: "PID\tStatus\tLabel\n1\t0\tx\n2\t0\ty\n".to_string(),
        system_info: SystemInfo::from_readings(Some("host".to_string()), 3 * 86400 + 5, 8, None),
    };
    s.refresh_data(readings);
    assert_eq!(s.processes.len(), 1);
    assert_eq!(s.networks.len(), 1);
    assert_eq!(s.services.len(), 2);
    // The services list was empty when the earlier lists were refreshed, so the selection
    // was already brought back to the first entry.
    assert_eq!(s.selected_index, 0);
    assert_eq!(s.system_info.hostname, "host");
    assert_eq!(s.system_info.uptime, "3 days");
    assert_eq!(s.system_info.cpu_count, 8);
    assert_eq!(s.system_info.os_version, "Unknown");
}

#[test]
fn refresh_data_on_processes_clamps_once() {
    let mut s = AppState::new();
    s.current_tab = Tab::Processes;
    s.selected_index = 9;
    let readings = Readings {
        processes: vec![process("1"), process("2"), process("3")],
        networks: Vec::new(),
        lsof_output: String::new(),
        ls_output: String::new(),
        launchctl_output: String::new(),
        system_info: SystemInfo::from_readings(None, 0, 1, None),
    };
    s.refresh_data(readings);
    assert_eq!(s.selected_index, 2);
}

#[test]
fn root_paths_get_no_parent_entry() {
    let listing = "total 0\ndrwxr-xr-x 2 a b 64 Jan 1 10:00 x\n";
    for root in ["/", "//", "/.", "/./"] {
        let mut s = AppState::new();
        s.current_path = root.to_string();
        s.refresh_files(listing);
        assert_eq!(s.files.len(), 1, "{}", root);
    }
    for other in ["/a", "/a/", "/..", "a", ""] {
        let mut s = AppState::new();
        s.current_path = other.to_string();
        s.refresh_files(listing);
        assert_eq!(s.files.len(), 2, "{:?}", other);
    }
}
