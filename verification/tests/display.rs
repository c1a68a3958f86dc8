use peek::display::{file_row, format_uptime, network_row, port_row, service_row};
use peek::records::{FileInfo, NetworkInfo, PortInfo, ServiceInfo, SystemInfo};
use peek::state::{AppState, FileOperation};

#[test]
fn rows() {
    let f = FileInfo {
        name: "docs".to_string(),
        size: "96".to_string(),
        date: "Jan 1 10:00".to_string(),
        permissions: "drwx".to_string(),
        is_directory: true,
    };
    assert_eq!(file_row(&f), "📁 docs 96 Jan 1 10:00 drwx");
    let p = PortInfo {
        port: "22".to_string(),
        protocol: "TCP".to_string(),
        process: "sshd".to_string(),
        local_address: "*:22".to_string(),
        state: "LISTEN".to_string(),
        pid: "7".to_string(),
    };
    assert_eq!(port_row(&p), "🌐 TCP:22 sshd *:22 LISTEN [PID: 7]");
    let s = ServiceInfo { name: "com.a".to_string(), status: "Running".to_string(), pid: "5".to_string() };
    assert_eq!(service_row(&s), "▶️ com.a Running 5");
    let t = ServiceInfo { name: "com.b".to_string(), status: "Stopped".to_string(), pid: "-".to_string() };
    assert_eq!(service_row(&t), "⏹️ com.b Stopped -");
    let n = NetworkInfo { interface: "en0".to_string(), received_bytes: 1536, transmitted_bytes: 12 };
    let (a, b, c) = network_row(&n);
    assert_eq!((a.as_str(), b.as_str(), c.as_str()), ("en0", "1.5 KB", "12 B"));
    assert_eq!(format_uptime(86399), "0 days");
    assert_eq!(format_uptime(2 * 86400), "2 days");
}

#[test]
fn titles_footer_and_input_line() {
    let mut s = AppState::new();
    assert_eq!(s.ports_title(), "Network Ports (Press 'k' to kill, '/' to filter)");
    s.port_filter = "ab".to_string();
    assert_eq!(s.ports_title(), "Network Ports (Filtered: 'ab' | Press '/' to filter, Esc to clear)");
    s.port_filter_mode = true;
    assert_eq!(s.ports_title(), "Network Ports (Filter: 'ab' | Press Enter to apply, Esc to cancel)");
    assert_eq!(s.files_title(), "Files (/)");
    assert!(s.footer_text().starts_with("Press 'h' for help"));
    s.show_help = true;
    assert!(s.footer_text().starts_with("Help: q=quit"));
    s.message = "Copied".to_string();
    assert_eq!(s.footer_text(), "Copied");
    assert!(s.input_line().is_none());
    s.command_mode = true;
    s.command_line = "ls".to_string();
    assert_eq!(s.input_line().unwrap(), ":ls");
    assert!(s.footer_text().starts_with("Help"));
    s.command_mode = false;
    s.file_operation = Some(FileOperation::Move("/a".to_string()));
    s.message = "Move: a -> Enter destination path".to_string();
    assert_eq!(s.input_line().unwrap(), "Move: a -> Enter destination path Destination: ls");
    s.file_operation = Some(FileOperation::Delete("/a".to_string()));
    assert_eq!(s.input_line().unwrap(), "Move: a -> Enter destination path");
}

#[test]
fn facts_lines() {
    let mut s = AppState::new();
    s.system_info = SystemInfo::from_readings(Some("mac".to_string()), 86400, 4, Some("14.1".to_string()));
    assert_eq!(
        s.dashboard_facts(),
        "Hostname: mac\nUptime: 1 days\nCPU Cores: 4\nOS: 14.1\nProcesses: 0\nPorts: 0\nServices: 0"
    );
    assert!(s.system_facts().contains("\nOS Version: 14.1\n"));
}

#[test]
fn facts_count_all_ports() {
    let mut s = AppState::new();
    s.all_ports = vec![PortInfo {
        port: "22".to_string(),
        protocol: "TCP".to_string(),
        process: "sshd".to_string(),
        local_address: "*:22".to_string(),
        state: "LISTEN".to_string(),
        pid: "7".to_string(),
    }];
    s.port_filter = "zzz".to_string();
    s.apply_port_filter();
    assert_eq!(s.ports.len(), 0);
    assert!(s.system_facts().contains("\nPorts: 1\n"));
    assert!(s.dashboard_facts().contains("\nPorts: 1\n"));
}
