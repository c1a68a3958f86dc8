use peek::events::{Action, CommandOutcome, Key, Signal};
use peek::records::{FileInfo, PortInfo, ProcessInfo, ServiceInfo};
use peek::state::{AppState, FileOperation, Tab};

fn file(name: &str, dir: bool) -> FileInfo {
    FileInfo {
        name: name.to_string(),
        size: "1".to_string(),
        date: "Jan 1 10:00".to_string(),
        permissions: if dir { "drwxr-xr-x".to_string() } else { "-rw-r--r--".to_string() },
        is_directory: dir,
    }
}

fn files_state(path: &str) -> AppState {
    let mut s = AppState::new();
    s.current_tab = Tab::Files;
    s.current_path = path.to_string();
    s.files = vec![file("..", true), file("docs", true), file("a.txt", false)];
    s
}

#[test]
fn quit_help_refresh_and_digits() {
    let mut s = AppState::new();
    assert!(matches!(s.handle_key(Key::Char('q')), Action::Quit));
    assert!(matches!(s.handle_key(Key::Char('h')), Action::Nothing));
    assert!(s.show_help);
    assert!(matches!(s.handle_key(Key::Char('r')), Action::RefreshAll));
    s.handle_key(Key::Char('5'));
    assert_eq!(s.current_tab, Tab::Ports);
    s.handle_key(Key::Char('9'));
    assert_eq!(s.current_tab, Tab::Settings);
    s.handle_key(Key::Right);
    assert_eq!(s.current_tab, Tab::Dashboard);
    s.handle_key(Key::Tab);
    assert_eq!(s.current_tab, Tab::Files);
    s.handle_key(Key::Left);
    assert_eq!(s.current_tab, Tab::Dashboard);
}

#[test]
fn command_line_editing_and_running() {
    let mut s = AppState::new();
    s.handle_key(Key::Char(':'));
    assert!(s.command_mode);
    assert_eq!(s.message, "Command: ");
    for c in "ls -lq".chars() {
        s.handle_key(Key::Char(c));
    }
    assert_eq!(s.command_line, "ls -lq");
    s.handle_key(Key::Char('\x7f'));
    s.handle_key(Key::Char('\u{1b}'));
    assert_eq!(s.command_line, "ls -l");
    match s.handle_key(Key::Enter) {
        Action::RunCommand(c) => assert_eq!(c, "ls -l"),
        _ => panic!("expected a command to run"),
    }
    s.complete_command(CommandOutcome::Succeeded("one\ntwo\nthree\nfour\n".to_string()));
    assert_eq!(s.message, "Command executed. Output: one two three");
    assert!(!s.command_mode);
    assert_eq!(s.command_line, "");
}

#[test]
fn blank_command_is_not_run_and_escape_cancels() {
    let mut s = AppState::new();
    s.handle_key(Key::Char(':'));
    s.handle_key(Key::Char(' '));
    assert!(matches!(s.handle_key(Key::Enter), Action::Nothing));
    assert!(s.command_mode);
    s.handle_key(Key::Esc);
    assert!(!s.command_mode);
    assert_eq!(s.command_line, "");
    assert_eq!(s.message, "");
}

#[test]
fn command_failure_messages() {
    let mut s = AppState::new();
    s.command_mode = true;
    s.complete_command(CommandOutcome::Failed("boom\nmore".to_string()));
    assert_eq!(s.message, "Command failed: boom");
    s.complete_command(CommandOutcome::Failed(String::new()));
    assert_eq!(s.message, "Command failed: Unknown error");
    s.complete_command(CommandOutcome::NotRun("no shell".to_string()));
    assert_eq!(s.message, "Error executing command: no shell");
}

#[test]
fn copy_stages_joined_path_and_enter_performs() {
    let mut s = files_state("/Users/me");
    s.selected_index = 2;
    s.handle_key(Key::Char('c'));
    match &s.file_operation {
        Some(FileOperation::Copy(p)) => assert_eq!(p, "/Users/me/a.txt"),
        _ => panic!("expected a staged copy"),
    }
    assert_eq!(s.message, "Copy: a.txt -> Enter destination path");
    for c in "/tmp".chars() {
        s.handle_key(Key::Char(c));
    }
    match s.handle_key(Key::Enter) {
        Action::PerformFileOperation(FileOperation::Copy(src), dest) => {
            assert_eq!(src, "/Users/me/a.txt");
            assert_eq!(dest, "/tmp");
        }
        _ => panic!("expected the copy to be performed"),
    }
    assert_eq!(s.command_line, "");
    assert!(s.complete_file_operation("/tmp", false, None));
    assert_eq!(s.message, "Copied /Users/me/a.txt to /tmp");
    assert!(s.file_operation.is_none());
}

#[test]
fn move_to_current_directory_and_failure_keeps_operation() {
    let mut s = files_state("/Users/me");
    s.selected_index = 1;
    s.handle_key(Key::Char('m'));
    assert_eq!(s.message, "Move: docs -> Enter destination path");
    match s.handle_key(Key::Enter) {
        Action::PerformFileOperation(FileOperation::Move(_), dest) => assert_eq!(dest, "/Users/me"),
        _ => panic!("expected the move to be performed"),
    }
    assert!(!s.complete_file_operation("/Users/me", false, Some("denied".to_string())));
    assert_eq!(s.message, "Error moving file: denied");
    assert!(s.file_operation.is_some());
}

#[test]
fn delete_needs_confirmation() {
    let mut s = files_state("/Users/me");
    s.selected_index = 2;
    s.handle_key(Key::Char('d'));
    assert_eq!(s.message, "Delete: a.txt? (y/n)");
    assert!(matches!(s.handle_key(Key::Enter), Action::Nothing));
    match s.handle_key(Key::Char('y')) {
        Action::PerformFileOperation(FileOperation::Delete(p), dest) => {
            assert_eq!(p, "/Users/me/a.txt");
            assert_eq!(dest, "/Users/me/a.txt");
        }
        _ => panic!("expected the deletion"),
    }
    assert!(s.complete_file_operation("/Users/me/a.txt", false, None));
    assert_eq!(s.message, "Deleted file: /Users/me/a.txt");
    s.handle_key(Key::Char('d'));
    s.handle_key(Key::Char('n'));
    assert!(s.file_operation.is_none());
    assert_eq!(s.message, "");
}

#[test]
fn delete_directory_messages() {
    let mut s = files_state("/x");
    s.file_operation = Some(FileOperation::Delete("/x/docs".to_string()));
    assert!(!s.complete_file_operation("/x/docs", true, Some("busy".to_string())));
    assert_eq!(s.message, "Error deleting directory: busy");
    assert!(s.complete_file_operation("/x/docs", true, None));
    assert_eq!(s.message, "Deleted directory: /x/docs");
}

#[test]
fn parent_entry_cannot_be_staged() {
    let mut s = files_state("/Users/me");
    s.selected_index = 0;
    s.handle_key(Key::Char('c'));
    assert!(s.file_operation.is_none());
    assert_eq!(s.message, "");
}

#[test]
fn navigation_into_parent_and_child() {
    let mut s = files_state("/Users/me");
    s.selected_index = 0;
    assert!(matches!(s.handle_key(Key::Enter), Action::ListDirectory));
    assert_eq!(s.current_path, "/Users");
    let mut t = files_state("/Users");
    t.selected_index = 1;
    match t.handle_key(Key::Enter) {
        Action::EnterDirectory(p) => assert_eq!(p, "/Users/docs"),
        _ => panic!("expected a directory to enter"),
    }
    assert_eq!(t.selected_index, 0);
    t.enter_directory("/Users/docs".to_string());
    assert_eq!(t.current_path, "/Users/docs");
    let mut u = files_state("/Users");
    u.selected_index = 2;
    assert!(matches!(u.handle_key(Key::Enter), Action::Nothing));
    assert_eq!(u.selected_index, 2);
}

#[test]
fn kill_process_and_services() {
    let mut s = AppState::new();
    s.current_tab = Tab::Processes;
    s.processes = vec![ProcessInfo {
        pid: "99".to_string(),
        name: "x".to_string(),
        cpu: "1.0%".to_string(),
        memory: "2.0MB".to_string(),
        user: "0".to_string(),
    }];
    match s.handle_key(Key::Char('k')) {
        Action::KillProcess(pid, Signal::Kill) => assert_eq!(pid, "99"),
        _ => panic!("expected kill"),
    }
    match s.handle_key(Key::Char('K')) {
        Action::KillProcess(pid, Signal::Terminate) => assert_eq!(pid, "99"),
        _ => panic!("expected terminate"),
    }
    s.current_tab = Tab::Services;
    s.services = vec![ServiceInfo { name: "com.a".to_string(), status: "Running".to_string(), pid: "5".to_string() }];
    match s.handle_key(Key::Char('s')) {
        Action::StartService(n) => assert_eq!(n, "com.a"),
        _ => panic!("expected start"),
    }
    match s.handle_key(Key::Char('S')) {
        Action::StopService(n) => assert_eq!(n, "com.a"),
        _ => panic!("expected stop"),
    }
}

#[test]
fn ports_kill_and_filter_mode() {
    let mut s = AppState::new();
    s.current_tab = Tab::Ports;
    s.all_ports = vec![
        PortInfo {
            port: "80".to_string(),
            protocol: "TCP".to_string(),
            process: "nginx".to_string(),
            local_address: "*:80".to_string(),
            state: "LISTEN".to_string(),
            pid: "-".to_string(),
        },
        PortInfo {
            port: "22".to_string(),
            protocol: "TCP".to_string(),
            process: "sshd".to_string(),
            local_address: "*:22".to_string(),
            state: "LISTEN".to_string(),
            pid: "7".to_string(),
        },
    ];
    s.apply_port_filter();
    assert!(matches!(s.handle_key(Key::Char('k')), Action::Nothing));
    s.selected_index = 1;
    match s.handle_key(Key::Char('k')) {
        Action::KillPortProcess(pid) => assert_eq!(pid, "7"),
        _ => panic!("expected kill by port"),
    }
    s.handle_key(Key::Char('/'));
    assert!(s.port_filter_mode);
    s.handle_key(Key::Char('s'));
    s.handle_key(Key::Char('s'));
    assert_eq!(s.port_filter, "ss");
    assert_eq!(s.ports.len(), 1);
    assert_eq!(s.selected_index, 0);
    s.handle_key(Key::Char('\x08'));
    assert_eq!(s.port_filter, "s");
    s.handle_key(Key::Char('k'));
    assert_eq!(s.port_filter, "sk");
    assert_eq!(s.ports.len(), 0);
    s.handle_key(Key::Char('\r'));
    assert!(!s.port_filter_mode);
    assert_eq!(s.port_filter, "sk");
    s.handle_key(Key::Esc);
    assert_eq!(s.port_filter, "");
    assert_eq!(s.ports.len(), 2);
}

#[test]
fn global_letters_are_typed_into_filter_and_command_line() {
    let mut s = AppState::new();
    s.current_tab = Tab::Ports;
    s.port_filter_mode = true;
    for c in "qhr:5".chars() {
        assert!(matches!(s.handle_key(Key::Char(c)), Action::Nothing));
    }
    assert_eq!(s.port_filter, "qhr:5");
    assert!(!s.show_help);
    assert!(!s.command_mode);
    assert_eq!(s.current_tab, Tab::Ports);
    s.port_filter_mode = false;
    assert!(matches!(s.handle_key(Key::Char('q')), Action::Quit));
    let mut t = AppState::new();
    t.command_mode = true;
    assert!(matches!(t.handle_key(Key::Char('q')), Action::Nothing));
    assert_eq!(t.command_line, "q");
}

#[test]
fn enter_key_leaves_port_filter_mode_keeping_filter() {
    let mut s = AppState::new();
    s.current_tab = Tab::Ports;
    s.port_filter_mode = true;
    s.handle_key(Key::Char('x'));
    assert_eq!(s.port_filter, "x");
    assert!(matches!(s.handle_key(Key::Enter), Action::Nothing));
    assert!(!s.port_filter_mode);
    assert_eq!(s.port_filter, "x");
    s.handle_key(Key::Char('/'));
    assert!(s.port_filter_mode);
    s.handle_key(Key::Char('\n'));
    assert!(!s.port_filter_mode);
}

#[test]
fn copy_destination_may_hold_any_letter() {
    let mut s = files_state("/Users/me");
    s.selected_index = 2;
    s.handle_key(Key::Char('c'));
    for c in "/tmp/yNny".chars() {
        s.handle_key(Key::Char(c));
    }
    assert_eq!(s.command_line, "/tmp/yNny");
    assert!(s.file_operation.is_some());
    match s.handle_key(Key::Enter) {
        Action::PerformFileOperation(FileOperation::Copy(_), dest) => assert_eq!(dest, "/tmp/yNny"),
        _ => panic!("expected the copy to be performed"),
    }
}

#[test]
fn navigation_from_root_and_back() {
    let mut s = files_state("/");
    s.selected_index = 1;
    match s.handle_key(Key::Enter) {
        Action::EnterDirectory(p) => {
            assert_eq!(p, "/docs");
            s.enter_directory(p);
        }
        _ => panic!("expected a directory to enter"),
    }
    s.refresh_files("total 0\n");
    assert_eq!(s.files.len(), 1);
    assert_eq!(s.files[0].name, "..");
    assert!(matches!(s.handle_key(Key::Enter), Action::ListDirectory));
    assert_eq!(s.current_path, "/");
    s.refresh_files("total 0\n");
    assert_eq!(s.files.len(), 0);
}

#[test]
fn moving_down_then_up_returns() {
    let mut s = AppState::new();
    s.current_tab = Tab::Tools;
    s.selected_index = 3;
    s.handle_key(Key::Down);
    assert_eq!(s.selected_index, 4);
    s.handle_key(Key::Up);
    assert_eq!(s.selected_index, 3);
    s.selected_index = 7;
    s.handle_key(Key::Down);
    assert_eq!(s.selected_index, 7);
}
