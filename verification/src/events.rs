use vstd::prelude::*;

use crate::lists::{port_views, ports_shown};
use crate::paths::{
    clean_absolute, is_absolute, joined_path, lemma_join_components, lemma_join_then_parent,
    parent_text, path_components, plain_component,
};
use crate::platform::{join_path, parent_path, path_parent, push_char};
use crate::records::FileInfo;
use crate::state::{
    clamped_index, lemma_clamp_in_range, index_after_down, index_after_up, tab_after, tab_before, AppState, FileOperation,
    Tab,
};
use crate::text::chars_of;
use crate::text::{is_control_char, is_control_code, joined, lemma_one_line, lines, same_text, split_lines, string_views, substring, trimmed, trim};

verus! {

/// A key press, as far as the dashboard tells keys apart.
#[derive(PartialEq, Eq, Structural, Clone, Copy, Debug)]
pub enum Key {
    Esc,
    Enter,
    Up,
    Down,
    Left,
    Right,
    Tab,
    Char(char),
    Other,
}

/// The signal sent to a process that is killed.
#[derive(PartialEq, Eq, Structural, Clone, Copy, Debug)]
pub enum Signal {
    /// `kill -9`
    Kill,
    /// `kill -TERM`
    Terminate,
}

/// What has to be done outside after a key press.
pub enum Action {
    /// Nothing.
    Nothing,
    /// Leave the dashboard.
    Quit,
    /// Read everything anew and pass it to `refresh_data`.
    RefreshAll,
    /// Run the text with `sh -c`, pass the outcome to `complete_command`, then refresh all.
    RunCommand(String),
    /// Carry out the file operation with the destination, then pass the outcome to
    /// `complete_file_operation`.
    PerformFileOperation(FileOperation, String),
    /// List the current directory anew and pass the listing to `refresh_files`.
    ListDirectory,
    /// If the path is a directory, pass it to `enter_directory`; in any case then list the
    /// current directory anew.
    EnterDirectory(String),
    /// Send the signal to the process with this id, then read the processes anew.
    KillProcess(String, Signal),
    /// Kill the process with this id (`kill -9`), then read the ports anew.
    KillPortProcess(String),
    /// Start the service with this label, then read the services anew.
    StartService(String),
    /// Stop the service with this label, then read the services anew.
    StopService(String),
}

/// How a command run with `sh -c` ended.
pub enum CommandOutcome {
    /// It exited with success and wrote this standard output.
    Succeeded(String),
    /// It exited with failure and wrote this standard error.
    Failed(String),
    /// It could not be run, for this reason.
    NotRun(String),
}

/// Whether `c` erases the last character of an input.
pub open spec fn is_erase(c: char) -> bool {
    c == '\x08' || c == '\x7f'
}

/// An input after the character `c` was typed: an erase character removes the last
/// character, another control character is ignored, any other is appended.
pub open spec fn edited(text: Seq<char>, c: char) -> Seq<char> {
    if is_erase(c) {
        if text.len() > 0 {
            text.drop_last()
        } else {
            text
        }
    } else if !is_control_code(c) {
        text.push(c)
    } else {
        text
    }
}

/// The entry of the file list under the selection, if any.
pub open spec fn selected_file(s: AppState) -> Option<FileInfo> {
    if s.selected_index < s.files@.len() {
        Some(s.files@[s.selected_index as int])
    } else {
        None
    }
}

/// The kinds of file operation.
pub enum OperationKind {
    Copy,
    Move,
    Delete,
}

/// The message shown when a file operation is staged on the file `name`.
pub open spec fn staged_message(kind: OperationKind, name: Seq<char>) -> Seq<char> {
    match kind {
        OperationKind::Copy => "Copy: "@ + name + " -> Enter destination path"@,
        OperationKind::Move => "Move: "@ + name + " -> Enter destination path"@,
        OperationKind::Delete => "Delete: "@ + name + "? (y/n)"@,
    }
}

/// Whether `op` is an operation of kind `kind` on the file at `path`.
pub open spec fn operation_on(op: FileOperation, kind: OperationKind, path: Seq<char>) -> bool {
    match (op, kind) {
        (FileOperation::Copy(p), OperationKind::Copy) => p@ == path,
        (FileOperation::Move(p), OperationKind::Move) => p@ == path,
        (FileOperation::Delete(p), OperationKind::Delete) => p@ == path,
        _ => false,
    }
}

/// The effect of staging a file operation: when an entry other than `..` is selected, the
/// operation on that entry's path in the current directory waits, with a message naming the
/// entry; otherwise nothing changes.
pub open spec fn staged(o: AppState, n: AppState, kind: OperationKind) -> bool {
    match selected_file(o) {
        Some(f) => if f.name@ != ".."@ {
            &&& n.file_operation matches Some(op) && operation_on(
                op,
                kind,
                joined_path(o.current_path@, f.name@),
            )
            &&& n.message@ == staged_message(kind, f.name@)
            &&& n == (AppState { file_operation: n.file_operation, message: n.message, ..o })
        } else {
            n == o
        },
        None => n == o,
    }
}

impl AppState {
    fn stage_file_operation(&mut self, kind: OperationKind)
        ensures
            staged(*old(self), *final(self), kind),
    {
        if self.selected_index < self.files.len() {
            let name = self.files[self.selected_index].name.clone();
            if !same_text(name.as_str(), "..") {
                let path = join_path(self.current_path.as_str(), name.as_str());
                let (op, mut message) = match kind {
                    OperationKind::Copy => (FileOperation::Copy(path), String::from_str("Copy: ")),
                    OperationKind::Move => (FileOperation::Move(path), String::from_str("Move: ")),
                    OperationKind::Delete => (
                        FileOperation::Delete(path),
                        String::from_str("Delete: "),
                    ),
                };
                message.append(name.as_str());
                match kind {
                    OperationKind::Delete => message.append("? (y/n)"),
                    _ => message.append(" -> Enter destination path"),
                }
                self.file_operation = Some(op);
                self.message = message;
            }
        }
    }

    /// Stages a copy of the selected entry (not `..`), to wait for a destination.
    pub fn copy_file(&mut self)
        ensures
            staged(*old(self), *final(self), OperationKind::Copy),
    {
        self.stage_file_operation(OperationKind::Copy)
    }

    /// Stages a move of the selected entry (not `..`), to wait for a destination.
    pub fn move_file(&mut self)
        ensures
            staged(*old(self), *final(self), OperationKind::Move),
    {
        self.stage_file_operation(OperationKind::Move)
    }

    /// Stages the deletion of the selected entry (not `..`), to wait for a confirmation.
    pub fn delete_file(&mut self)
        ensures
            staged(*old(self), *final(self), OperationKind::Delete),
    {
        self.stage_file_operation(OperationKind::Delete)
    }
}


/// The effect of opening the selected entry: for a directory named `..`, the current path
/// becomes its parent (if it has one) and the directory is listed anew; for another
/// directory, the path joined with its name is to be entered if it is a directory; either
/// way the first entry is selected. On anything else nothing happens.
pub open spec fn navigated(o: AppState, n: AppState, a: Action) -> bool {
    match selected_file(o) {
        Some(f) => if f.is_directory {
            if f.name@ == ".."@ {
                &&& a is ListDirectory
                &&& n.selected_index == 0
                &&& match path_parent(o.current_path@) {
                    Some(p) => n.current_path@ == p,
                    None => n.current_path == o.current_path,
                }
                &&& clean_absolute(o.current_path@) && o.current_path@.len() > 1
                    ==> n.current_path@ == parent_text(o.current_path@)
                &&& is_absolute(o.current_path@) && path_components(o.current_path@).len() > 0
                    ==> is_absolute(n.current_path@) && path_components(n.current_path@)
                    == path_components(o.current_path@).drop_last()
                &&& n == (AppState { current_path: n.current_path, selected_index: 0, ..o })
            } else {
                &&& a matches Action::EnterDirectory(p) && p@ == joined_path(
                    o.current_path@,
                    f.name@,
                )
                &&& n == (AppState { selected_index: 0, ..o })
            }
        } else {
            a is Nothing && n == o
        },
        None => a is Nothing && n == o,
    }
}

/// Whether a port entry names a process that can be killed: its process id is neither empty
/// nor `-`.
pub open spec fn has_killable_pid(pid: Seq<char>) -> bool {
    pid.len() > 0 && pid != "-"@
}

/// The message after a file operation ended; `removed_directory` tells, for a deletion,
/// whether a directory was removed, and `error` why the operation failed.
pub open spec fn file_operation_message(
    op: FileOperation,
    destination: Seq<char>,
    removed_directory: bool,
    error: Option<Seq<char>>,
) -> Seq<char> {
    match op {
        FileOperation::Copy(src) => match error {
            None => "Copied "@ + src@ + " to "@ + destination,
            Some(e) => "Error copying file: "@ + e,
        },
        FileOperation::Move(src) => match error {
            None => "Moved "@ + src@ + " to "@ + destination,
            Some(e) => "Error moving file: "@ + e,
        },
        FileOperation::Delete(path) => if removed_directory {
            match error {
                None => "Deleted directory: "@ + path@,
                Some(e) => "Error deleting directory: "@ + e,
            }
        } else {
            match error {
                None => "Deleted file: "@ + path@,
                Some(e) => "Error deleting file: "@ + e,
            }
        },
    }
}

/// The text of an optional string.
pub open spec fn optional_text(e: Option<String>) -> Option<Seq<char>> {
    match e {
        Some(s) => Some(s@),
        None => None,
    }
}

/// The message after a command ended: the first three lines of its output joined by spaces,
/// or the first line of its error output, or why it could not be run.
pub open spec fn command_message(outcome: CommandOutcome) -> Seq<char> {
    match outcome {
        CommandOutcome::Succeeded(out) => "Command executed. Output: "@ + joined(
            lines(out@).take(if lines(out@).len() < 3 { lines(out@).len() as int } else { 3 }),
            seq![' '],
        ),
        CommandOutcome::Failed(err) => "Command failed: "@ + if lines(err@).len() > 0 {
            lines(err@)[0]
        } else {
            "Unknown error"@
        },
        CommandOutcome::NotRun(e) => "Error executing command: "@ + e@,
    }
}

/// A command's success message shows the lines of its output joined by spaces: all of them
/// when there are at most three, and the first three otherwise.
pub proof fn lemma_command_output_shown(o: CommandOutcome)
    ensures
        o matches CommandOutcome::Succeeded(out) ==> {
            &&& lines(out@).len() <= 3 ==> command_message(o) == "Command executed. Output: "@
                + joined(lines(out@), seq![' '])
            &&& lines(out@).len() >= 3 ==> command_message(o) == "Command executed. Output: "@
                + joined(lines(out@).take(3), seq![' '])
        },
{
    if let CommandOutcome::Succeeded(out) = o {
        let l = lines(out@);
        assert(l.take(l.len() as int) =~= l);
    }
}

/// Output of one line, with or without a final line feed, is shown whole after the prefix.
pub proof fn lemma_one_line_output_shown(o: CommandOutcome, s: Seq<char>)
    requires
        o matches CommandOutcome::Succeeded(out) && (out@ == s || out@ == s.push('\n')),
        s.len() > 0,
        s.last() != '\r',
        forall|k: int| 0 <= k < s.len() ==> #[trigger] s[k] != '\n',
    ensures
        command_message(o) == "Command executed. Output: "@ + s,
{
    lemma_one_line(s);
    let l = lines(o->Succeeded_0@);
    assert(l == seq![s]);
    assert(l.take(1) =~= l);
}

impl AppState {
    /// Opens the selected entry if it is a directory: `..` goes to the parent directory,
    /// another name asks for the joined path to be entered. The first entry gets selected.
    pub fn navigate_into_directory(&mut self) -> (a: Action)
        ensures
            navigated(*old(self), *final(self), a),
    {
        if self.selected_index < self.files.len() {
            if self.files[self.selected_index].is_directory {
                let name = self.files[self.selected_index].name.clone();
                if same_text(name.as_str(), "..") {
                    match parent_path(self.current_path.as_str()) {
                        Some(p) => {
                            self.current_path = p;
                        },
                        None => {},
                    }
                    self.selected_index = 0;
                    return Action::ListDirectory;
                } else {
                    let new_path = join_path(self.current_path.as_str(), name.as_str());
                    self.selected_index = 0;
                    return Action::EnterDirectory(new_path);
                }
            }
        }
        Action::Nothing
    }

    /// Makes `path`, found to be a directory, the current one.
    pub fn enter_directory(&mut self, path: String)
        ensures
            *final(self) == (AppState { current_path: path, ..*old(self) }),
    {
        self.current_path = path;
    }

    /// The process id to kill for the selected port, if one is selected and names a process.
    pub fn kill_process_by_port(&self) -> (r: Option<String>)
        ensures
            match r {
                Some(pid) => self.selected_index < self.ports@.len() && pid@
                    == self.ports@[self.selected_index as int].pid@ && has_killable_pid(pid@),
                None => !(self.selected_index < self.ports@.len() && has_killable_pid(
                    self.ports@[self.selected_index as int].pid@,
                )),
            },
    {
        if self.selected_index < self.ports.len() {
            let pid = self.ports[self.selected_index].pid.clone();
            if !pid.as_str().is_empty() && !same_text(pid.as_str(), "-") {
                return Some(pid);
            }
        }
        None
    }

    /// Records how the waiting file operation ended, given its destination: on success the
    /// operation is done and the files are to be listed anew (the result is `true`); on
    /// failure it keeps waiting. Either way the message tells what happened.
    pub fn complete_file_operation(
        &mut self,
        destination: &str,
        removed_directory: bool,
        error: Option<String>,
    ) -> (refresh: bool)
        ensures
            match old(self).file_operation {
                Some(op) => {
                    &&& final(self).message@ == file_operation_message(
                        op,
                        destination@,
                        removed_directory,
                        optional_text(error),
                    )
                    &&& refresh == (error is None)
                    &&& final(self).file_operation == if error is None {
                        None
                    } else {
                        old(self).file_operation
                    }
                    &&& *final(self) == (AppState {
                        message: final(self).message,
                        file_operation: final(self).file_operation,
                        ..*old(self)
                    })
                },
                None => !refresh && *final(self) == *old(self),
            },
    {
        let op = match &self.file_operation {
            Some(op) => op.duplicate(),
            None => {
                return false;
            },
        };
        let ok = error.is_none();
        let message = match (&op, error) {
            (FileOperation::Copy(src), None) => {
                let mut m = String::from_str("Copied ");
                m.append(src.as_str());
                m.append(" to ");
                m.append(destination);
                m
            },
            (FileOperation::Copy(_), Some(e)) => {
                let mut m = String::from_str("Error copying file: ");
                m.append(e.as_str());
                m
            },
            (FileOperation::Move(src), None) => {
                let mut m = String::from_str("Moved ");
                m.append(src.as_str());
                m.append(" to ");
                m.append(destination);
                m
            },
            (FileOperation::Move(_), Some(e)) => {
                let mut m = String::from_str("Error moving file: ");
                m.append(e.as_str());
                m
            },
            (FileOperation::Delete(path), None) => {
                let mut m = if removed_directory {
                    String::from_str("Deleted directory: ")
                } else {
                    String::from_str("Deleted file: ")
                };
                m.append(path.as_str());
                m
            },
            (FileOperation::Delete(_), Some(e)) => {
                let mut m = if removed_directory {
                    String::from_str("Error deleting directory: ")
                } else {
                    String::from_str("Error deleting file: ")
                };
                m.append(e.as_str());
                m
            },
        };
        self.message = message;
        if ok {
            self.file_operation = None;
        }
        ok
    }

    /// Records how a command ended: the message tells it, the command line is emptied and
    /// left. The caller then refreshes all data.
    pub fn complete_command(&mut self, outcome: CommandOutcome)
        ensures
            final(self).message@ == command_message(outcome),
            final(self).command_line@.len() == 0,
            *final(self) == (AppState {
                message: final(self).message,
                command_line: final(self).command_line,
                command_mode: false,
                ..*old(self)
            }),
    {
        let message = match &outcome {
            CommandOutcome::Succeeded(out) => {
                let ls = split_lines(out.as_str());
                let k: usize = if ls.len() < 3 {
                    ls.len()
                } else {
                    3
                };
                let mut m = String::from_str("Command executed. Output: ");
                let mut i: usize = 0;
                let ghost all = lines(out@);
                while i < k
                    invariant
                        k <= ls@.len(),
                        i <= k,
                        string_views(ls@) == all,
                        m@ == "Command executed. Output: "@ + joined(all.take(i as int), seq![' ']),
                    decreases k - i,
                {
                    assert(all.take(i + 1).drop_last() =~= all.take(i as int));
                    assert(all.take(i + 1).last() == ls@[i as int]@);
                    if i > 0 {
                        proof {
                            reveal_strlit(" ");
                        }
                        m.append(" ");
                    }
                    m.append(ls[i].as_str());
                    assert(m@ =~= "Command executed. Output: "@ + joined(all.take(i + 1), seq![' ']));
                    i = i + 1;
                }
                m
            },
            CommandOutcome::Failed(err) => {
                let ls = split_lines(err.as_str());
                let mut m = String::from_str("Command failed: ");
                if ls.len() > 0 {
                    assert(ls@[0]@ == lines(err@)[0]);
                    m.append(ls[0].as_str());
                } else {
                    m.append("Unknown error");
                }
                m
            },
            CommandOutcome::NotRun(e) => {
                let mut m = String::from_str("Error executing command: ");
                m.append(e.as_str());
                m
            },
        };
        self.message = message;
        self.command_line = String::new();
        self.command_mode = false;
    }
}


/// The tab that a digit key selects: `1` the Dashboard up to `9` the Settings.
pub open spec fn tab_for_digit(c: char) -> Tab {
    if c == '1' {
        Tab::Dashboard
    } else if c == '2' {
        Tab::Files
    } else if c == '3' {
        Tab::Processes
    } else if c == '4' {
        Tab::Network
    } else if c == '5' {
        Tab::Ports
    } else if c == '6' {
        Tab::Services
    } else if c == '7' {
        Tab::System
    } else if c == '8' {
        Tab::Tools
    } else {
        Tab::Settings
    }
}

/// `n` is `m` with the ports filtered anew by `m`'s filter and the selection brought inside.
pub open spec fn refiltered(m: AppState, n: AppState) -> bool {
    &&& port_views(n.ports@) == ports_shown(port_views(m.all_ports@), m.port_filter@)
    &&& n.selected_index == clamped_index(
        m.selected_index as nat,
        (AppState { ports: n.ports, ..m }).list_len(),
    )
    &&& n == (AppState { ports: n.ports, selected_index: n.selected_index, ..m })
}

/// Typing `c` into the port filter: an erase or printable character edits the filter, which
/// is applied anew; carriage return or line feed leaves filter mode keeping the filter;
/// other control characters are ignored.
pub open spec fn filter_typed(o: AppState, n: AppState, c: char) -> bool {
    if is_erase(c) || (!(c == '\r' || c == '\n') && !is_control_code(c)) {
        &&& n.port_filter@ == edited(o.port_filter@, c)
        &&& refiltered(AppState { port_filter: n.port_filter, ..o }, n)
    } else if c == '\r' || c == '\n' {
        n == (AppState { port_filter_mode: false, ..o })
    } else {
        n == o
    }
}

/// The action asked for a process: the selected process's id with the signal, if a process
/// is selected.
pub open spec fn process_kill(o: AppState, a: Action, sig: Signal) -> bool {
    if o.selected_index < o.processes@.len() {
        a matches Action::KillProcess(pid, s) && pid@ == o.processes@[o.selected_index as int].pid@
            && s == sig
    } else {
        a is Nothing
    }
}

/// The action asked for a port: killing its process, if a port that names one is selected.
pub open spec fn port_kill(o: AppState, a: Action) -> bool {
    if o.selected_index < o.ports@.len() && has_killable_pid(
        o.ports@[o.selected_index as int].pid@,
    ) {
        a matches Action::KillPortProcess(pid) && pid@ == o.ports@[o.selected_index as int].pid@
    } else {
        a is Nothing
    }
}

/// The action asked for a service: starting or stopping the selected one, if any.
pub open spec fn service_action(o: AppState, a: Action, start: bool) -> bool {
    if o.selected_index < o.services@.len() {
        let name = o.services@[o.selected_index as int].name@;
        if start {
            a matches Action::StartService(s) && s@ == name
        } else {
            a matches Action::StopService(s) && s@ == name
        }
    } else {
        a is Nothing
    }
}

/// A key on the command line: Esc leaves it, emptying it and the message; Enter runs a line
/// that is not blank; a character edits the line.
pub open spec fn command_key_effect(o: AppState, n: AppState, key: Key, a: Action) -> bool {
    match key {
        Key::Esc => {
            &&& a is Nothing
            &&& n.command_line@.len() == 0
            &&& n.message@.len() == 0
            &&& n == (AppState {
                command_mode: false,
                command_line: n.command_line,
                message: n.message,
                ..o
            })
        },
        Key::Enter => if trimmed(o.command_line@).len() > 0 {
            a matches Action::RunCommand(cmd) && cmd@ == o.command_line@ && n == o
        } else {
            a is Nothing && n == o
        },
        Key::Char(c) => {
            &&& a is Nothing
            &&& n.command_line@ == edited(o.command_line@, c)
            &&& n == (AppState { command_line: n.command_line, ..o })
        },
        _ => a is Nothing && n == o,
    }
}

/// The waiting operation is carried out with `destination`, and the input line is emptied.
pub open spec fn performs(o: AppState, n: AppState, a: Action, destination: Seq<char>) -> bool {
    &&& a matches Action::PerformFileOperation(op, dest) && Some(op) == o.file_operation && dest@
        == destination
    &&& n.command_line@.len() == 0
    &&& n == (AppState { command_line: n.command_line, ..o })
}

/// A key while a file operation waits: Esc cancels it; Enter carries out a copy or move
/// with the typed destination, or the current directory if none was typed; for a deletion
/// `y` or `Y` confirms it and `n` or `N` cancels it; other characters (all characters for a
/// copy or move) edit the destination.
pub open spec fn file_key_effect(o: AppState, n: AppState, key: Key, a: Action) -> bool {
    let is_delete = o.file_operation matches Some(FileOperation::Delete(_));
    let cancelled = a is Nothing && n.message@.len() == 0 && n == (AppState {
        file_operation: None,
        message: n.message,
        ..o
    });
    match key {
        Key::Esc => cancelled,
        Key::Enter => if is_delete {
            a is Nothing && n == o
        } else {
            performs(
                o,
                n,
                a,
                if o.command_line@.len() == 0 {
                    o.current_path@
                } else {
                    o.command_line@
                },
            )
        },
        Key::Char(c) => if (c == 'y' || c == 'Y') && is_delete {
            match o.file_operation {
                Some(FileOperation::Delete(p)) => performs(o, n, a, p@),
                _ => false,
            }
        } else if (c == 'n' || c == 'N') && is_delete {
            cancelled
        } else {
            &&& a is Nothing
            &&& n.command_line@ == edited(o.command_line@, c)
            &&& n == (AppState { command_line: n.command_line, ..o })
        },
        _ => a is Nothing && n == o,
    }
}

/// A character key in normal mode, the first matching rule applying: on Ports in filter mode
/// every character goes to the filter; else `q` quits, `h` toggles help, `r` refreshes, `:`
/// opens the command line; on Files `c`, `m`, `d` stage a copy, move or deletion; on
/// Processes `k` and `K` kill or terminate the selected process; on Ports `k` kills the
/// selected port's process and `/` enters filter mode; on Services `s` and `S` start and
/// stop the selected service; the digits `1` to `9` select a tab.
pub open spec fn normal_char_effect(o: AppState, n: AppState, c: char, a: Action) -> bool {
    let tab = o.current_tab;
    if tab == Tab::Ports && o.port_filter_mode {
        a is Nothing && filter_typed(o, n, c)
    } else if c == 'q' {
        a is Quit && n == o
    } else if c == 'h' {
        a is Nothing && n == (AppState { show_help: !o.show_help, ..o })
    } else if c == 'r' {
        a is RefreshAll && n == o
    } else if c == ':' {
        &&& a is Nothing
        &&& n.command_line@.len() == 0
        &&& n.message@ == "Command: "@
        &&& n == (AppState {
            command_mode: true,
            command_line: n.command_line,
            message: n.message,
            ..o
        })
    } else if c == 'c' && tab == Tab::Files {
        a is Nothing && staged(o, n, OperationKind::Copy)
    } else if c == 'm' && tab == Tab::Files {
        a is Nothing && staged(o, n, OperationKind::Move)
    } else if c == 'd' && tab == Tab::Files {
        a is Nothing && staged(o, n, OperationKind::Delete)
    } else if c == 'k' && tab == Tab::Processes {
        n == o && process_kill(o, a, Signal::Kill)
    } else if c == 'K' && tab == Tab::Processes {
        n == o && process_kill(o, a, Signal::Terminate)
    } else if c == 'k' && tab == Tab::Ports {
        n == o && port_kill(o, a)
    } else if c == '/' && tab == Tab::Ports {
        a is Nothing && n == (AppState { port_filter_mode: true, ..o })
    } else if c == 's' && tab == Tab::Services {
        n == o && service_action(o, a, true)
    } else if c == 'S' && tab == Tab::Services {
        n == o && service_action(o, a, false)
    } else if '1' <= c <= '9' {
        a is Nothing && n == (AppState { current_tab: tab_for_digit(c), ..o })
    } else {
        a is Nothing && n == o
    }
}

/// A key in normal mode: the arrows move the selection and switch tabs (as Tab does), Enter
/// opens a directory on Files and on Ports leaves filter mode keeping the filter, Esc on
/// Ports leaves filter mode and clears the filter.
pub open spec fn normal_key_effect(o: AppState, n: AppState, key: Key, a: Action) -> bool {
    match key {
        Key::Char(c) => normal_char_effect(o, n, c, a),
        Key::Up => a is Nothing && n == (AppState {
            selected_index: index_after_up(o.selected_index as nat) as usize,
            ..o
        }),
        Key::Down => a is Nothing && n == (AppState {
            selected_index: index_after_down(o.selected_index as nat, o.list_len()) as usize,
            ..o
        }),
        Key::Left => a is Nothing && n == (AppState {
            current_tab: tab_before(o.current_tab),
            selected_index: 0,
            ..o
        }),
        Key::Right | Key::Tab => a is Nothing && n == (AppState {
            current_tab: tab_after(o.current_tab),
            selected_index: 0,
            ..o
        }),
        Key::Enter => if o.current_tab == Tab::Files {
            navigated(o, n, a)
        } else if o.current_tab == Tab::Ports && o.port_filter_mode {
            a is Nothing && n == (AppState { port_filter_mode: false, ..o })
        } else {
            a is Nothing && n == o
        },
        Key::Esc => if o.current_tab == Tab::Ports {
            &&& a is Nothing
            &&& n.port_filter@.len() == 0
            &&& refiltered(
                AppState { port_filter_mode: false, port_filter: n.port_filter, ..o },
                n,
            )
        } else {
            a is Nothing && n == o
        },
        Key::Other => a is Nothing && n == o,
    }
}

/// Applies a typed character to an input.
fn edit_input(text: &mut String, c: char)
    ensures
        final(text)@ == edited(old(text)@, c),
{
    if c == '\x08' || c == '\x7f' {
        let n = chars_of(text.as_str()).len();
        if n > 0 {
            let shorter = substring(text.as_str(), 0, n - 1);
            *text = shorter;
        }
    } else if !is_control_char(c) {
        push_char(text, c);
    }
}

fn tab_of_digit(c: char) -> (t: Tab)
    ensures
        t == tab_for_digit(c),
{
    if c == '1' {
        Tab::Dashboard
    } else if c == '2' {
        Tab::Files
    } else if c == '3' {
        Tab::Processes
    } else if c == '4' {
        Tab::Network
    } else if c == '5' {
        Tab::Ports
    } else if c == '6' {
        Tab::Services
    } else if c == '7' {
        Tab::System
    } else if c == '8' {
        Tab::Tools
    } else {
        Tab::Settings
    }
}

impl AppState {
    fn command_key(&mut self, key: Key) -> (a: Action)
        ensures
            command_key_effect(*old(self), *final(self), key, a),
    {
        match key {
            Key::Esc => {
                self.command_mode = false;
                self.command_line = String::new();
                self.message = String::new();
                Action::Nothing
            },
            Key::Enter => {
                let t = trim(self.command_line.as_str());
                if !t.as_str().is_empty() {
                    Action::RunCommand(self.command_line.clone())
                } else {
                    Action::Nothing
                }
            },
            Key::Char(c) => {
                edit_input(&mut self.command_line, c);
                Action::Nothing
            },
            _ => Action::Nothing,
        }
    }

    fn perform_with(&mut self, destination: String) -> (a: Action)
        requires
            old(self).file_operation is Some,
        ensures
            performs(*old(self), *final(self), a, destination@),
    {
        let op = self.file_operation.as_ref().unwrap().duplicate();
        self.command_line = String::new();
        Action::PerformFileOperation(op, destination)
    }

    fn file_operation_key(&mut self, key: Key) -> (a: Action)
        requires
            old(self).file_operation is Some,
        ensures
            file_key_effect(*old(self), *final(self), key, a),
    {
        let is_delete = match &self.file_operation {
            Some(FileOperation::Delete(_)) => true,
            _ => false,
        };
        match key {
            Key::Esc => {
                self.file_operation = None;
                self.message = String::new();
                Action::Nothing
            },
            Key::Enter => {
                if is_delete {
                    Action::Nothing
                } else {
                    let dest = if self.command_line.as_str().is_empty() {
                        self.current_path.clone()
                    } else {
                        self.command_line.clone()
                    };
                    self.perform_with(dest)
                }
            },
            Key::Char(c) => {
                if (c == 'y' || c == 'Y') && is_delete {
                    let target = match &self.file_operation {
                        Some(FileOperation::Delete(p)) => p.clone(),
                        _ => String::new(),
                    };
                    self.perform_with(target)
                } else if (c == 'n' || c == 'N') && is_delete {
                    self.file_operation = None;
                    self.message = String::new();
                    Action::Nothing
                } else {
                    edit_input(&mut self.command_line, c);
                    Action::Nothing
                }
            },
            _ => Action::Nothing,
        }
    }

    fn port_filter_key(&mut self, c: char)
        ensures
            filter_typed(*old(self), *final(self), c),
    {
        if c == '\x08' || c == '\x7f' {
            edit_input(&mut self.port_filter, c);
            self.apply_port_filter();
        } else if c == '\r' || c == '\n' {
            self.port_filter_mode = false;
        } else if !is_control_char(c) {
            edit_input(&mut self.port_filter, c);
            self.apply_port_filter();
        }
    }

    fn normal_char(&mut self, c: char) -> (a: Action)
        ensures
            normal_char_effect(*old(self), *final(self), c, a),
    {
        let tab = self.current_tab;
        if tab == Tab::Ports && self.port_filter_mode {
            self.port_filter_key(c);
            Action::Nothing
        } else if c == 'q' {
            Action::Quit
        } else if c == 'h' {
            self.show_help = !self.show_help;
            Action::Nothing
        } else if c == 'r' {
            Action::RefreshAll
        } else if c == ':' {
            self.command_mode = true;
            self.command_line = String::new();
            self.message = String::from_str("Command: ");
            Action::Nothing
        } else if c == 'c' && tab == Tab::Files {
            self.copy_file();
            Action::Nothing
        } else if c == 'm' && tab == Tab::Files {
            self.move_file();
            Action::Nothing
        } else if c == 'd' && tab == Tab::Files {
            self.delete_file();
            Action::Nothing
        } else if (c == 'k' || c == 'K') && tab == Tab::Processes {
            let signal = if c == 'k' {
                Signal::Kill
            } else {
                Signal::Terminate
            };
            if self.selected_index < self.processes.len() {
                Action::KillProcess(self.processes[self.selected_index].pid.clone(), signal)
            } else {
                Action::Nothing
            }
        } else if c == 'k' && tab == Tab::Ports {
            match self.kill_process_by_port() {
                Some(pid) => Action::KillPortProcess(pid),
                None => Action::Nothing,
            }
        } else if c == '/' && tab == Tab::Ports {
            self.port_filter_mode = true;
            Action::Nothing
        } else if (c == 's' || c == 'S') && tab == Tab::Services {
            if self.selected_index < self.services.len() {
                let name = self.services[self.selected_index].name.clone();
                if c == 's' {
                    Action::StartService(name)
                } else {
                    Action::StopService(name)
                }
            } else {
                Action::Nothing
            }
        } else if '1' <= c && c <= '9' {
            self.current_tab = tab_of_digit(c);
            Action::Nothing
        } else {
            Action::Nothing
        }
    }

    fn normal_key(&mut self, key: Key) -> (a: Action)
        ensures
            normal_key_effect(*old(self), *final(self), key, a),
    {
        match key {
            Key::Char(c) => self.normal_char(c),
            Key::Up => {
                self.move_up();
                Action::Nothing
            },
            Key::Down => {
                self.move_down();
                Action::Nothing
            },
            Key::Left => {
                self.prev_tab();
                Action::Nothing
            },
            Key::Right | Key::Tab => {
                self.next_tab();
                Action::Nothing
            },
            Key::Enter => {
                if self.current_tab == Tab::Files {
                    self.navigate_into_directory()
                } else {
                    if self.current_tab == Tab::Ports && self.port_filter_mode {
                        self.port_filter_mode = false;
                    }
                    Action::Nothing
                }
            },
            Key::Esc => {
                if self.current_tab == Tab::Ports {
                    self.port_filter_mode = false;
                    self.port_filter = String::new();
                    self.apply_port_filter();
                }
                Action::Nothing
            },
            Key::Other => Action::Nothing,
        }
    }

    /// Handles a key press: on the command line, while a file operation waits, or else in
    /// normal mode. The result says what has to be done outside.
    pub fn handle_key(&mut self, key: Key) -> (a: Action)
        ensures
            old(self).command_mode ==> command_key_effect(*old(self), *final(self), key, a),
            !old(self).command_mode && old(self).file_operation is Some ==> file_key_effect(
                *old(self),
                *final(self),
                key,
                a,
            ),
            !old(self).command_mode && old(self).file_operation is None ==> normal_key_effect(
                *old(self),
                *final(self),
                key,
                a,
            ),
    {
        if self.command_mode {
            self.command_key(key)
        } else if self.file_operation.is_some() {
            self.file_operation_key(key)
        } else {
            self.normal_key(key)
        }
    }
}


/// Erasing right after typing a printable character gives back the input as it was.
pub proof fn lemma_erase_undoes_typing(text: Seq<char>, c: char)
    requires
        !is_control_code(c),
    ensures
        edited(edited(text, c), '\x08') == text,
        edited(edited(text, c), '\x7f') == text,
{
    assert(text.push(c).drop_last() =~= text);
}

/// Leaving port filter mode with Esc clears the filter and shows every port again.
pub proof fn lemma_clearing_filter_shows_all(o: AppState, n: AppState)
    requires
        o.current_tab == Tab::Ports,
        normal_key_effect(o, n, Key::Esc, Action::Nothing),
    ensures
        port_views(n.ports@) == port_views(n.all_ports@),
        n.all_ports == o.all_ports,
        !n.port_filter_mode,
        n.port_filter@.len() == 0,
{
}

/// Esc on the command line or on a waiting file operation leaves the dashboard in normal
/// mode with no message.
pub proof fn lemma_escape_returns_to_normal(o: AppState, n: AppState, a: Action)
    requires
        o.command_mode ==> command_key_effect(o, n, Key::Esc, a),
        !o.command_mode && o.file_operation is Some ==> file_key_effect(o, n, Key::Esc, a),
        o.command_mode || o.file_operation is Some,
    ensures
        o.command_mode ==> !n.command_mode && n.command_line@.len() == 0,
        !o.command_mode ==> n.file_operation is None,
        n.message@.len() == 0,
        a is Nothing,
{
}


/// Applying the filter a second time changes nothing.
pub proof fn lemma_refilter_idempotent(m: AppState, n: AppState, n2: AppState)
    requires
        refiltered(m, n),
        refiltered(n, n2),
    ensures
        port_views(n2.ports@) == port_views(n.ports@),
        n2.selected_index == n.selected_index,
        n2.port_filter == n.port_filter,
        n2.all_ports == n.all_ports,
{
    assert(port_views(n2.ports@).len() == n2.ports@.len());
    assert(port_views(n.ports@).len() == n.ports@.len());
    let l1 = (AppState { ports: n.ports, ..m }).list_len();
    let l2 = (AppState { ports: n2.ports, ..n }).list_len();
    assert(l1 == l2);
    lemma_clamp_in_range(m.selected_index as nat, l1);
}

/// Entering a plain subdirectory and then choosing `..` in it returns to the directory one
/// started from.
pub proof fn lemma_enter_then_parent_returns(
    o: AppState,
    n1: AppState,
    a1: Action,
    m: AppState,
    n2: AppState,
    a2: Action,
)
    requires
        clean_absolute(o.current_path@),
        selected_file(o) matches Some(f) && f.is_directory && plain_component(f.name@) && f.name@
            != ".."@,
        navigated(o, n1, a1),
        a1 matches Action::EnterDirectory(p) && m.current_path@ == p@,
        selected_file(m) matches Some(g) && g.is_directory && g.name@ == ".."@,
        navigated(m, n2, a2),
    ensures
        a2 is ListDirectory,
        n2.current_path@ == o.current_path@,
{
    let f = selected_file(o)->0;
    lemma_join_then_parent(o.current_path@, f.name@);
}


/// Entering a plain subdirectory of any absolute directory and then choosing `..` in it
/// returns to a path with the same components as the one started from (the same path,
/// compared as `Path` compares).
pub proof fn lemma_enter_then_parent_same_components(
    o: AppState,
    n1: AppState,
    a1: Action,
    m: AppState,
    n2: AppState,
    a2: Action,
)
    requires
        is_absolute(o.current_path@),
        selected_file(o) matches Some(f) && f.is_directory && plain_component(f.name@) && f.name@
            != ".."@,
        navigated(o, n1, a1),
        a1 matches Action::EnterDirectory(p) && m.current_path@ == p@,
        selected_file(m) matches Some(g) && g.is_directory && g.name@ == ".."@,
        navigated(m, n2, a2),
    ensures
        a2 is ListDirectory,
        is_absolute(n2.current_path@),
        path_components(n2.current_path@) == path_components(o.current_path@),
{
    let f = selected_file(o)->0;
    lemma_join_components(o.current_path@, f.name@);
    assert(path_components(o.current_path@).push(f.name@).drop_last() =~= path_components(
        o.current_path@,
    ));
}

} // verus!
