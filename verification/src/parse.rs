use vstd::prelude::*;

use crate::records::{FileInfo, FileRecord, PortInfo, PortRecord, ServiceInfo, ServiceRecord};
use crate::text::{
    after_last, after_last_char, chars_of, find, find_chars, join_range, joined, lemma_find,
    matches_at, split_whitespace, starts_with_seq, string_views, strip_trailing_char,
    substring, trim, trim_end_char, trimmed, words,
};

verus! {

/// A single space, the separator that joins words back together.
pub open spec fn space() -> Seq<char> {
    seq![' ']
}

/// The entry that a line of `ls -la` output describes: at least nine words, of which the
/// first is the permissions, the fifth the size, the sixth to eighth the date and the rest
/// the name.
pub open spec fn ls_record(line: Seq<char>) -> Option<FileRecord> {
    let parts = words(line);
    if parts.len() < 9 {
        None
    } else {
        Some(
            FileRecord {
                name: joined(parts.subrange(8, parts.len() as int), space()),
                size: parts[4],
                date: joined(parts.subrange(5, 8), space()),
                permissions: parts[0],
                is_directory: parts[0].len() > 0 && parts[0][0] == 'd',
            },
        )
    }
}

/// The service that a line of `launchctl list` output describes: at least three words, the
/// first the process id (`-` when it is not running) and the third the label.
pub open spec fn launchctl_record(line: Seq<char>) -> Option<ServiceRecord> {
    let parts = words(line);
    if parts.len() < 3 {
        None
    } else {
        Some(
            ServiceRecord {
                name: parts[2],
                status: if parts[0] == seq!['-'] {
                    "Stopped"@
                } else {
                    "Running"@
                },
                pid: parts[0],
            },
        )
    }
}

/// The connection state in (the rest of) an `lsof` name column: the text in the
/// parentheses that follow the first ` (`, or `N/A` when there are none.
pub open spec fn lsof_state(rest: Seq<char>) -> Seq<char> {
    match find(rest, seq![' ', '(']) {
        Some(i) => trimmed(strip_trailing_char(rest.subrange(i + 2, rest.len() as int), ')')),
        None => "N/A"@,
    }
}

/// The local address and the connection state in the name column of an `lsof` line. For a
/// connection (`local->remote (STATE)`) the address is the part before the first `->` and
/// the state is taken after the remote address; otherwise the address is the part before
/// the first ` (`, or the whole column when there is none.
pub open spec fn lsof_address_state(field: Seq<char>) -> (Seq<char>, Seq<char>) {
    match find(field, seq!['-', '>']) {
        Some(i) => (
            trimmed(field.subrange(0, i)),
            lsof_state(field.subrange(i + 2, field.len() as int)),
        ),
        None => match find(field, seq![' ', '(']) {
            Some(i) => (trimmed(field.subrange(0, i)), lsof_state(field)),
            None => (field, "N/A"@),
        },
    }
}

/// The port that a line of `lsof -i -P -n` output describes: a non-empty line that is not
/// the header, with at least nine words: command, process id, ..., protocol (eighth) and the
/// name column (ninth on). The port is what follows the last `:` of the local address.
pub open spec fn lsof_record(line: Seq<char>) -> Option<PortRecord> {
    if line.len() == 0 || starts_with_seq(line, seq!['C', 'O', 'M', 'M', 'A', 'N', 'D']) {
        None
    } else {
        let parts = words(line);
        if parts.len() < 9 {
            None
        } else {
            let field = joined(parts.subrange(8, parts.len() as int), space());
            let (local, state) = lsof_address_state(field);
            Some(
                PortRecord {
                    port: after_last(local, ':'),
                    protocol: parts[7],
                    process: parts[0],
                    local_address: local,
                    state: state,
                    pid: parts[1],
                },
            )
        }
    }
}

fn space_str() -> (r: &'static str)
    ensures
        r@ == space(),
{
    proof {
        reveal_strlit(" ");
    }
    " "
}

/// Reads one line of `ls -la` output.
pub fn parse_ls_line(line: &str) -> (r: Option<FileInfo>)
    ensures
        match r {
            Some(f) => ls_record(line@) == Some(f@),
            None => ls_record(line@) is None,
        },
{
    let parts = split_whitespace(line);
    let ghost ws = words(line@);
    assert(string_views(parts@) == ws);
    if parts.len() < 9 {
        return None;
    }
    assert(parts@[0]@ == ws[0] && parts@[4]@ == ws[4]);
    let name = join_range(&parts, 8, parts.len(), space_str());
    let date = join_range(&parts, 5, 8, space_str());
    let perm = chars_of(parts[0].as_str());
    let is_directory = perm.len() > 0 && perm[0] == 'd';
    Some(
        FileInfo {
            name,
            size: parts[4].clone(),
            date,
            permissions: parts[0].clone(),
            is_directory,
        },
    )
}

/// Reads one line of `launchctl list` output.
pub fn parse_launchctl_line(line: &str) -> (r: Option<ServiceInfo>)
    ensures
        match r {
            Some(s) => launchctl_record(line@) == Some(s@),
            None => launchctl_record(line@) is None,
        },
{
    let parts = split_whitespace(line);
    let ghost ws = words(line@);
    assert(string_views(parts@) == ws);
    if parts.len() < 3 {
        return None;
    }
    assert(parts@[0]@ == ws[0] && parts@[2]@ == ws[2]);
    let first = chars_of(parts[0].as_str());
    let stopped = first.len() == 1 && first[0] == '-';
    assert(stopped == (ws[0] == seq!['-'])) by {
        if first@.len() == 1 && first@[0] == '-' {
            assert(ws[0] =~= seq!['-']);
        }
    }
    let status = if stopped {
        String::from_str("Stopped")
    } else {
        String::from_str("Running")
    };
    Some(ServiceInfo { name: parts[2].clone(), status, pid: parts[0].clone() })
}

/// The connection state in (the rest of) an `lsof` name column.
pub fn connection_state(rest: &str) -> (r: String)
    ensures
        r@ == lsof_state(rest@),
{
    let rc = chars_of(rest);
    let n = rc.len();
    let paren = vec![' ', '('];
    proof {
        lemma_find(rest@, paren@);
        assert(paren@ =~= seq![' ', '(']);
    }
    match find_chars(&rc, &paren) {
        Some(i) => {
            let after = substring(rest, i + 2, n);
            let inner = trim_end_char(after.as_str(), ')');
            trim(inner.as_str())
        },
        None => String::from_str("N/A"),
    }
}

/// Splits the name column of an `lsof` line into local address and state.
pub fn address_and_state(field: &str) -> (r: (String, String))
    ensures
        (r.0@, r.1@) == lsof_address_state(field@),
{
    let fc = chars_of(field);
    let n = fc.len();
    let arrow = vec!['-', '>'];
    let paren = vec![' ', '('];
    proof {
        lemma_find(field@, arrow@);
        lemma_find(field@, paren@);
        assert(arrow@ =~= seq!['-', '>']);
        assert(paren@ =~= seq![' ', '(']);
    }
    match find_chars(&fc, &arrow) {
        Some(i) => {
            let before = substring(field, 0, i);
            let after = substring(field, i + 2, n);
            (trim(before.as_str()), connection_state(after.as_str()))
        },
        None => match find_chars(&fc, &paren) {
            Some(i) => {
                let before = substring(field, 0, i);
                (trim(before.as_str()), connection_state(field))
            },
            None => (field.to_string(), String::from_str("N/A")),
        },
    }
}

/// Reads one line of `lsof -i -P -n` output.
pub fn parse_lsof_line(line: &str) -> (r: Option<PortInfo>)
    ensures
        match r {
            Some(p) => lsof_record(line@) == Some(p@),
            None => lsof_record(line@) is None,
        },
{
    let cs = chars_of(line);
    if cs.len() == 0 {
        return None;
    }
    let header = vec!['C', 'O', 'M', 'M', 'A', 'N', 'D'];
    assert(header@ =~= seq!['C', 'O', 'M', 'M', 'A', 'N', 'D']);
    if header.len() <= cs.len() && matches_at(&cs, &header, 0) {
        return None;
    }
    let parts = split_whitespace(line);
    let ghost ws = words(line@);
    assert(string_views(parts@) == ws);
    if parts.len() < 9 {
        return None;
    }
    assert(parts@[0]@ == ws[0] && parts@[1]@ == ws[1] && parts@[7]@ == ws[7]);
    let field = join_range(&parts, 8, parts.len(), space_str());
    let (local_address, state) = address_and_state(field.as_str());
    let port = after_last_char(local_address.as_str(), ':');
    Some(
        PortInfo {
            port,
            protocol: parts[7].clone(),
            process: parts[0].clone(),
            local_address,
            state,
            pid: parts[1].clone(),
        },
    )
}

} // verus!

verus! {

/// The port of a parsed `lsof` line holds no `:` and is the end of the local address.
pub proof fn lemma_lsof_port(line: Seq<char>)
    ensures
        lsof_record(line) matches Some(p) ==> {
            &&& forall|k: int| 0 <= k < p.port.len() ==> #[trigger] p.port[k] != ':'
            &&& p.port == p.local_address.subrange(
                p.local_address.len() - p.port.len(),
                p.local_address.len() as int,
            )
        },
{
    if let Some(p) = lsof_record(line) {
        crate::text::lemma_after_last(p.local_address, ':');
    }
}

/// Only the header line and short lines are skipped: a line that does not begin with
/// `COMMAND` and has at least nine words always gives a port, whose process, pid and protocol
/// are its first, second and eighth words; a line that begins with `COMMAND` gives none.
pub proof fn lemma_lsof_reads_body_lines(line: Seq<char>)
    ensures
        !starts_with_seq(line, "COMMAND"@) && words(line).len() >= 9 ==> (lsof_record(line) matches Some(p)
            && p.process == words(line)[0] && p.pid == words(line)[1] && p.protocol == words(
            line,
        )[7]),
        starts_with_seq(line, "COMMAND"@) ==> lsof_record(line) is None,
        words(line).len() < 9 ==> lsof_record(line) is None,
{
    reveal_strlit("COMMAND");
    assert("COMMAND"@ =~= seq!['C', 'O', 'M', 'M', 'A', 'N', 'D']);
    if line.len() == 0 {
        assert(words(line) =~= Seq::<Seq<char>>::empty());
    }
}

/// Every field read from a line is a single word, and no field read from a `launchctl` line
/// holds white space.
pub proof fn lemma_fields_are_words(line: Seq<char>)
    ensures
        ls_record(line) matches Some(f) ==> f.permissions.len() > 0 && f.size.len() > 0,
        launchctl_record(line) matches Some(s) ==> s.pid.len() > 0 && s.name.len() > 0
            && forall|k: int| 0 <= k < s.name.len() ==> !crate::text::is_white_space(
            #[trigger] s.name[k],
        ),
{
    crate::text::lemma_words_clean(line);
}

} // verus!
