use vstd::prelude::*;
use crate::text::{
    append_str, chars_of, is_whitespace, lemma_split_lines_step, same_chars, split_lines, string_from_chars,
    trim, trim_bounds,
};

verus! {

broadcast use vstd::string::group_string_axioms;

/// The name under which the first instance listens for the others.
pub const APP_ID: &'static str = "uwu-ujhhgtg-whiteboard";

/// Whether this process is the first instance of the program.
#[derive(PartialEq, Eq, Structural, Clone, Copy, Debug)]
pub enum SingleInstance {
    First,
    NotFirst,
}

/// What a later instance asks of the first one.
pub enum InstanceRequest {
    /// Come to the front.
    Focus,
    /// Open the file at `path` and come to the front.
    Open { path: String },
}

/// The message a later instance sends: `open` and the path of the file it
/// was started with, or `focus` and an empty line.
pub open spec fn instance_message(arg_path: Option<Seq<char>>) -> Seq<char> {
    match arg_path {
        Some(p) => "open\n"@ + p + "\n"@,
        None => "focus\n\n"@,
    }
}

/// The message that a later instance started with `arg_path` sends.
pub fn encode_instance_message(arg_path: Option<&str>) -> (s: String)
    ensures
        s@ == instance_message(match arg_path {
            Some(p) => Some(p@),
            None => None,
        }),
{
    let mut out: Vec<char> = Vec::new();
    match arg_path {
        Some(p) => {
            append_str(&mut out, "open\n");
            append_str(&mut out, p);
            append_str(&mut out, "\n");
        },
        None => {
            append_str(&mut out, "focus\n\n");
        },
    }
    string_from_chars(out.as_slice())
}

/// The command that a first line names, once trimmed: `focus`, `open`, or
/// nothing known.
pub enum InstanceCommand {
    Focus,
    Open,
}

pub open spec fn command_of(line: Seq<char>) -> Option<InstanceCommand> {
    if trim(line) == "focus"@ {
        Some(InstanceCommand::Focus)
    } else if trim(line) == "open"@ {
        Some(InstanceCommand::Open)
    } else {
        None
    }
}

/// Reads the command named by the first line of a message.
pub fn parse_instance_command(line: &str) -> (r: Option<InstanceCommand>)
    ensures
        r == command_of(line@),
{
    let chars = chars_of(line);
    let (a, z) = trim_bounds(chars.as_slice());
    let t = &chars.as_slice()[a..z];
    let focus = chars_of("focus");
    let open = chars_of("open");
    if same_chars(t, focus.as_slice()) {
        Some(InstanceCommand::Focus)
    } else if same_chars(t, open.as_slice()) {
        Some(InstanceCommand::Open)
    } else {
        None
    }
}

/// The path that the second line of an `open` message names: the line
/// trimmed.
pub fn request_path(line: &str) -> (p: String)
    ensures
        p@ == trim(line@),
{
    let chars = chars_of(line);
    let (a, z) = trim_bounds(chars.as_slice());
    string_from_chars(&chars.as_slice()[a..z])
}

/// What the first instance makes of a whole message: the command of its
/// first line and, for `open`, the trimmed second line (empty when there is
/// none).
pub open spec fn decoded_request(msg: Seq<char>) -> Option<(InstanceCommand, Seq<char>)> {
    let lines = split_lines(msg);
    match command_of(lines[0]) {
        Some(InstanceCommand::Focus) => Some((InstanceCommand::Focus, Seq::empty())),
        Some(InstanceCommand::Open) => Some(
            (InstanceCommand::Open, if lines.len() > 1 {
                trim(lines[1])
            } else {
                Seq::empty()
            }),
        ),
        None => None,
    }
}

/// The index of the first newline in `s` at or after `from`, or the length
/// of `s` when there is none.
fn next_newline(s: &[char], from: usize) -> (e: usize)
    requires
        from <= s@.len(),
    ensures
        from <= e <= s@.len(),
        forall|k: int| from <= k < e ==> #[trigger] s@[k] != '\n',
        e < s@.len() ==> s@[e as int] == '\n',
{
    let mut i = from;
    while i < s.len() && s[i] != '\n'
        invariant
            from <= i <= s@.len(),
            forall|k: int| from <= k < i ==> #[trigger] s@[k] != '\n',
        decreases s@.len() - i,
    {
        i = i + 1;
    }
    i
}

/// Reads a whole message sent by a later instance.
pub fn decode_instance_message(msg: &str) -> (r: Option<InstanceRequest>)
    ensures
        match decoded_request(msg@) {
            Some((InstanceCommand::Focus, _)) => r matches Some(InstanceRequest::Focus),
            Some((InstanceCommand::Open, p)) => r matches Some(InstanceRequest::Open { path }) && path@ == p,
            None => r is None,
        },
{
    let s = chars_of(msg);
    let e1 = next_newline(s.as_slice(), 0);
    proof {
        assert(s@.skip(0) == s@);
        lemma_split_lines_step(s@, 0, e1 as int);
    }
    let first = string_from_chars(&s.as_slice()[0..e1]);
    match parse_instance_command(first.as_str()) {
        Some(InstanceCommand::Focus) => Some(InstanceRequest::Focus),
        Some(InstanceCommand::Open) => {
            if e1 < s.len() {
                let e2 = next_newline(s.as_slice(), e1 + 1);
                proof {
                    lemma_split_lines_step(s@, e1 + 1, e2 as int);
                }
                let second = string_from_chars(&s.as_slice()[e1 + 1..e2]);
                Some(InstanceRequest::Open { path: request_path(second.as_str()) })
            } else {
                Some(InstanceRequest::Open { path: String::new() })
            }
        },
        None => None,
    }
}

/// A later instance is understood: for a path that holds no newline and
/// has no whitespace at either end, the first instance reads back an `open`
/// request for that very path; with no path, a `focus` request.
pub proof fn law_instance_message_round_trip(arg_path: Option<Seq<char>>)
    requires
        arg_path matches Some(p) ==> trim(p) == p && !p.contains('\n'),
    ensures
        match arg_path {
            Some(p) => decoded_request(instance_message(arg_path)) == Some((InstanceCommand::Open, p)),
            None => decoded_request(instance_message(arg_path)) matches Some((InstanceCommand::Focus, _)),
        },
{
    reveal_strlit("open\n");
    reveal_strlit("open");
    reveal_strlit("\n");
    reveal_strlit("focus\n\n");
    reveal_strlit("focus");
    match arg_path {
        Some(p) => {
            let m = instance_message(arg_path);
            assert(m[4] == '\n');
            assert forall|k: int| 0 <= k < 4 implies #[trigger] m[k] != '\n' by {}
            lemma_split_lines_step(m, 0, 4);
            assert(m.skip(0) == m);
            assert(m.subrange(0, 4) == "open"@);
            let e2: int = 5 + p.len() as int;
            assert forall|k: int| 5 <= k < e2 implies #[trigger] m[k] != '\n' by {
                assert(m[k] == p[k - 5]);
            }
            assert(m[e2] == '\n');
            lemma_split_lines_step(m, 5, e2);
            assert(m.subrange(5, e2) == p);
            assert(trim("open"@) == "open"@) by {
                assert(!is_whitespace('o'));
                assert(!is_whitespace('n'));
            }
        },
        None => {
            let m = instance_message(arg_path);
            assert(m[5] == '\n');
            assert forall|k: int| 0 <= k < 5 implies #[trigger] m[k] != '\n' by {}
            lemma_split_lines_step(m, 0, 5);
            assert(m.skip(0) == m);
            assert(m.subrange(0, 5) == "focus"@);
            assert(trim("focus"@) == "focus"@) by {
                assert(!is_whitespace('f'));
                assert(!is_whitespace('s'));
            }
        },
    }
}

} // verus!
