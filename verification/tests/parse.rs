use peek::parse::{parse_launchctl_line, parse_ls_line, parse_lsof_line};

#[test]
fn lsof_established_connection() {
    let line = "Google    1234 alice   45u  IPv4 0x1234      0t0  TCP 192.168.1.5:52345->142.250.1.1:443 (ESTABLISHED)";
    let p = parse_lsof_line(line).unwrap();
    assert_eq!(p.process, "Google");
    assert_eq!(p.pid, "1234");
    assert_eq!(p.protocol, "TCP");
    assert_eq!(p.local_address, "192.168.1.5:52345");
    assert_eq!(p.state, "ESTABLISHED");
    assert_eq!(p.port, "52345");
}

#[test]
fn lsof_listening_socket() {
    let line = "node      4321 bob   23u  IPv6 0xabcd      0t0  TCP *:3000 (LISTEN)";
    let p = parse_lsof_line(line).unwrap();
    assert_eq!(p.process, "node");
    assert_eq!(p.pid, "4321");
    assert_eq!(p.protocol, "TCP");
    assert_eq!(p.local_address, "*:3000");
    assert_eq!(p.state, "LISTEN");
    assert_eq!(p.port, "3000");
}

#[test]
fn lsof_udp_without_state() {
    let line = "mDNSRespo  300 _mdns   7u  IPv4 0x1      0t0  UDP *:5353";
    let p = parse_lsof_line(line).unwrap();
    assert_eq!(p.local_address, "*:5353");
    assert_eq!(p.state, "N/A");
    assert_eq!(p.port, "5353");
}

#[test]
fn lsof_rejects_header_empty_and_short_lines() {
    assert!(parse_lsof_line("").is_none());
    assert!(parse_lsof_line("COMMAND   PID USER   FD   TYPE DEVICE SIZE/OFF NODE NAME").is_none());
    assert!(parse_lsof_line("a b c d e f g h").is_none());
}

#[test]
fn ls_file_and_directory() {
    let f = parse_ls_line("-rw-r--r--   1 alice  staff   1234 Jan  5 10:00 my notes.txt").unwrap();
    assert_eq!(f.name, "my notes.txt");
    assert_eq!(f.size, "1234");
    assert_eq!(f.date, "Jan 5 10:00");
    assert_eq!(f.permissions, "-rw-r--r--");
    assert!(!f.is_directory);
    let d = parse_ls_line("drwxr-xr-x  12 root  wheel    384 Feb 10  2023 usr").unwrap();
    assert_eq!(d.name, "usr");
    assert!(d.is_directory);
    assert!(parse_ls_line("total 48").is_none());
}

#[test]
fn launchctl_running_and_stopped() {
    let s = parse_launchctl_line("512\t0\tcom.apple.Finder").unwrap();
    assert_eq!(s.name, "com.apple.Finder");
    assert_eq!(s.status, "Running");
    assert_eq!(s.pid, "512");
    let t = parse_launchctl_line("-\t0\tcom.example.agent").unwrap();
    assert_eq!(t.status, "Stopped");
    assert_eq!(t.pid, "-");
    assert!(parse_launchctl_line("PID Status").is_none());
}

#[test]
fn lsof_connection_without_state() {
    let line = "app  9 me  5u  IPv4 0x1  0t0  UDP 10.0.0.2:5000->10.0.0.1:53";
    let p = parse_lsof_line(line).unwrap();
    assert_eq!(p.local_address, "10.0.0.2:5000");
    assert_eq!(p.state, "N/A");
    assert_eq!(p.port, "5000");
}
