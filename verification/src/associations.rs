use vstd::prelude::*;
use crate::text::{
    is_whitespace, lemma_line_end_bounds, line_end, trim_end, trim_start, append_str, chars_of, has_prefix, lemma_split_lines_step, same_chars, split_lines, starts_with_chars,
    string_from_chars, trim, trim_bounds,
};

verus! {

broadcast use vstd::string::group_string_axioms;

/// The shared-mime-info package that registers the `.owo` file type.
pub const MIME_XML: &'static str = "<?xml version=\"1.0\" encoding=\"utf-8\"?>
<mime-info xmlns=\"http://www.freedesktop.org/standards/shared-mime-info\">
  <mime-type type=\"application/x-owo\">
    <comment>Open Whiteboard Objects</comment>
    <glob pattern=\"*.owo\"/>
  </mime-type>
</mime-info>
";

/// `part` appended to the path `base` as `Path::join` appends a relative
/// path: a separator goes between them unless `base` is empty or already
/// ends in one.
pub open spec fn join_path(base: Seq<char>, part: Seq<char>) -> Seq<char> {
    if base.len() == 0 {
        part
    } else if base.last() == '/' {
        base + part
    } else {
        base + seq!['/'] + part
    }
}

/// Appends the relative path `part` to the path `base`.
pub fn join_path_exec(base: &str, part: &str) -> (r: String)
    ensures
        r@ == join_path(base@, part@),
{
    let b = chars_of(base);
    let mut out = b.clone();
    assert(out@ == b@);
    if b.len() > 0 && b[b.len() - 1] != '/' {
        out.push('/');
    }
    append_str(&mut out, part);
    string_from_chars(out.as_slice())
}

/// The characters of an optional string.
pub open spec fn opt_view(o: Option<&str>) -> Option<Seq<char>> {
    match o {
        Some(s) => Some(s@),
        None => None,
    }
}

/// The per-user data directory: `$XDG_DATA_HOME`, or else
/// `$HOME/.local/share`; none when neither variable is set.
pub open spec fn data_home(xdg_data_home: Option<Seq<char>>, home: Option<Seq<char>>) -> Option<Seq<char>> {
    match xdg_data_home {
        Some(x) => Some(x),
        None => match home {
            Some(h) => Some(join_path(h, ".local/share"@)),
            None => None,
        },
    }
}

fn data_home_exec(xdg_data_home: Option<&str>, home: Option<&str>) -> (r: Option<String>)
    ensures
        match data_home(opt_view(xdg_data_home), opt_view(home)) {
            Some(d) => r is Some && r->Some_0@ == d,
            None => r is None,
        },
{
    match xdg_data_home {
        Some(x) => Some(x.to_owned()),
        None => match home {
            Some(h) => Some(join_path_exec(h, ".local/share")),
            None => None,
        },
    }
}

/// The directory of the user's desktop entries, from the values of
/// `XDG_DATA_HOME` and `HOME`; none when neither is set.
pub fn get_linux_applications_dir(xdg_data_home: Option<&str>, home: Option<&str>) -> (r: Option<String>)
    ensures
        match data_home(opt_view(xdg_data_home), opt_view(home)) {
            Some(d) => r is Some && r->Some_0@ == join_path(d, "applications"@),
            None => r is None,
        },
{
    match data_home_exec(xdg_data_home, home) {
        Some(d) => Some(join_path_exec(d.as_str(), "applications")),
        None => None,
    }
}

/// The directory of the user's mime packages, from the values of
/// `XDG_DATA_HOME` and `HOME`; none when neither is set.
pub fn get_linux_mime_packages_dir(xdg_data_home: Option<&str>, home: Option<&str>) -> (r: Option<String>)
    ensures
        match data_home(opt_view(xdg_data_home), opt_view(home)) {
            Some(d) => r is Some && r->Some_0@ == join_path(join_path(d, "mime"@), "packages"@),
            None => r is None,
        },
{
    match data_home_exec(xdg_data_home, home) {
        Some(d) => {
            let m = join_path_exec(d.as_str(), "mime");
            Some(join_path_exec(m.as_str(), "packages"))
        },
        None => None,
    }
}

/// The directory of the user's icons, from the values of `XDG_DATA_HOME`
/// and `HOME`; none when neither is set.
pub fn get_linux_icons_dir(xdg_data_home: Option<&str>, home: Option<&str>) -> (r: Option<String>)
    ensures
        match data_home(opt_view(xdg_data_home), opt_view(home)) {
            Some(d) => r is Some && r->Some_0@ == join_path(d, "icons"@),
            None => r is None,
        },
{
    match data_home_exec(xdg_data_home, home) {
        Some(d) => Some(join_path_exec(d.as_str(), "icons")),
        None => None,
    }
}

/// The desktop entry that opens `.owo` files with the program at `exe`,
/// showing the icon at `icon`.
pub open spec fn desktop_entry(exe: Seq<char>, icon: Seq<char>) -> Seq<char> {
    "[Desktop Entry]
Type=Application
Name=uwu
Comment=ujhhgtg's whiteboard, unleashed
Exec="@ + exe + " %f
Icon="@ + icon + "
Terminal=false
MimeType=application/x-owo;
Categories=Utility;Graphics;
"@
}

/// The desktop entry for the program at `exe` with the icon at `icon`.
pub fn desktop_entry_content(exe: &str, icon: &str) -> (s: String)
    ensures
        s@ == desktop_entry(exe@, icon@),
{
    let mut out: Vec<char> = Vec::new();
    append_str(
        &mut out,
        "[Desktop Entry]
Type=Application
Name=uwu
Comment=ujhhgtg's whiteboard, unleashed
Exec=",
    );
    append_str(&mut out, exe);
    append_str(&mut out, " %f
Icon=");
    append_str(&mut out, icon);
    append_str(
        &mut out,
        "
Terminal=false
MimeType=application/x-owo;
Categories=Utility;Graphics;
",
    );
    string_from_chars(out.as_slice())
}

/// `line` is an `Exec=` line that launches the program at `exe`, with or
/// without the file argument.
pub open spec fn exec_line_current(line: Seq<char>, exe: Seq<char>) -> bool {
    has_prefix(line, "Exec="@) && {
        let value = trim(line.skip("Exec="@.len() as int));
        value == exe + " %f"@ || value == exe
    }
}

/// Some line of `lines` is an `Exec=` line for the program at `exe`.
pub open spec fn any_exec_line_current(lines: Seq<Seq<char>>, exe: Seq<char>) -> bool
    decreases lines.len(),
{
    lines.len() > 0 && (exec_line_current(lines[0], exe) || any_exec_line_current(lines.drop_first(), exe))
}

fn exec_line_current_exec(line: &[char], exe: &[char], exe_with_arg: &[char]) -> (b: bool)
    requires
        exe_with_arg@ == exe@ + " %f"@,
    ensures
        b == exec_line_current(line@, exe@),
{
    let prefix = chars_of("Exec=");
    if !starts_with_chars(line, prefix.as_slice()) {
        return false;
    }
    let rest = &line[prefix.len()..line.len()];
    let (a, z) = trim_bounds(rest);
    let value = &rest[a..z];
    assert(value@ == trim(line@.skip("Exec="@.len() as int)));
    same_chars(value, exe_with_arg) || same_chars(value, exe)
}

/// Whether the desktop entry `content` must be written anew for the program
/// at `exe`: none of its lines is an `Exec=` line that launches it.
pub fn desktop_entry_needs_update(content: &str, exe: &str) -> (b: bool)
    ensures
        b == !any_exec_line_current(split_lines(content@), exe@),
{
    let text = chars_of(content);
    let exe_chars = chars_of(exe);
    let mut exe_with_arg = exe_chars.clone();
    assert(exe_with_arg@ == exe@);
    append_str(&mut exe_with_arg, " %f");
    let n = text.len();
    let mut st: usize = 0;
    let mut i: usize = 0;
    assert(text@.skip(0) == text@);
    while i < n
        invariant
            n == text@.len(),
            text@ == content@,
            exe_chars@ == exe@,
            exe_with_arg@ == exe@ + " %f"@,
            0 <= st <= i <= n,
            forall|k: int| st <= k < i ==> #[trigger] text@[k] != '\n',
            any_exec_line_current(split_lines(content@), exe@) == any_exec_line_current(
                split_lines(text@.skip(st as int)),
                exe@,
            ),
        decreases n - i,
    {
        if text[i] == '\n' {
            proof {
                lemma_split_lines_step(text@, st as int, i as int);
            }
            let line = &text.as_slice()[st..i];
            let hit = exec_line_current_exec(line, exe_chars.as_slice(), exe_with_arg.as_slice());
            proof {
                let ls = split_lines(text@.skip(st as int));
                assert(ls[0] == line@);
                assert(ls.drop_first() == split_lines(text@.skip(i + 1)));
            }
            if hit {
                return false;
            }
            st = i + 1;
        }
        i = i + 1;
    }
    proof {
        lemma_split_lines_step(text@, st as int, n as int);
    }
    let line = &text.as_slice()[st..n];
    let hit = exec_line_current_exec(line, exe_chars.as_slice(), exe_with_arg.as_slice());
    proof {
        let ls = split_lines(text@.skip(st as int));
        assert(ls[0] == line@);
        assert(ls.drop_first() =~= Seq::<Seq<char>>::empty());
        assert(!any_exec_line_current(ls.drop_first(), exe@));
        assert(any_exec_line_current(ls, exe@) == hit);
    }
    !hit
}

/// The registry value that gives `.owo` files the icon of the program at
/// `exe`: the quoted path and icon number 0.
pub open spec fn registry_icon(exe: Seq<char>) -> Seq<char> {
    "\""@ + exe + "\",0"@
}

/// The registry value for the default icon of `.owo` files.
pub fn registry_icon_value(exe: &str) -> (s: String)
    ensures
        s@ == registry_icon(exe@),
{
    let mut out: Vec<char> = Vec::new();
    append_str(&mut out, "\"");
    append_str(&mut out, exe);
    append_str(&mut out, "\",0");
    string_from_chars(out.as_slice())
}

/// The registry command that opens a `.owo` file with the program at `exe`:
/// the quoted path and the quoted file argument.
pub open spec fn registry_open_command(exe: Seq<char>) -> Seq<char> {
    "\""@ + exe + "\" \"%1\""@
}

/// The registry value of the open command for `.owo` files.
pub fn registry_open_command_value(exe: &str) -> (s: String)
    ensures
        s@ == registry_open_command(exe@),
{
    let mut out: Vec<char> = Vec::new();
    append_str(&mut out, "\"");
    append_str(&mut out, exe);
    append_str(&mut out, "\" \"%1\"");
    string_from_chars(out.as_slice())
}

proof fn lemma_line_end_le(s: Seq<char>, i: int)
    requires
        0 <= i < s.len(),
        s[i] == '\n',
    ensures
        line_end(s) <= i,
    decreases i,
{
    if i > 0 && s[0] != '\n' {
        assert(s.drop_first()[i - 1] == s[i]);
        lemma_line_end_le(s.drop_first(), i - 1);
    }
}

/// The lines after a newline are lines of the whole text.
proof fn lemma_current_after_newline(a: Seq<char>, b: Seq<char>, exe: Seq<char>)
    requires
        any_exec_line_current(split_lines(b), exe),
    ensures
        any_exec_line_current(split_lines(a + seq!['\n'] + b), exe),
    decreases a.len(),
{
    let d = a + seq!['\n'] + b;
    assert(d[a.len() as int] == '\n');
    lemma_line_end_le(d, a.len() as int);
    lemma_line_end_bounds(d);
    let e = line_end(d);
    let ls = split_lines(d);
    assert(ls == seq![d.take(e)] + split_lines(d.skip(e + 1)));
    assert(ls.drop_first() == split_lines(d.skip(e + 1)));
    if e == a.len() {
        assert(d.skip(e + 1) =~= b);
    } else {
        let a2 = a.skip(e + 1);
        assert(d.skip(e + 1) =~= a2 + seq!['\n'] + b);
        lemma_current_after_newline(a2, b, exe);
    }
}

/// A desktop entry just written for the program at `exe` needs no update
/// when it is checked for that program: its `Exec=` line launches it. This
/// holds for every path that is not empty, does not start with whitespace
/// and holds no newline, whatever the icon.
pub proof fn law_written_desktop_entry_is_current(exe: Seq<char>, icon: Seq<char>)
    requires
        exe.len() > 0,
        !is_whitespace(exe[0]),
        !exe.contains('\n'),
    ensures
        any_exec_line_current(split_lines(desktop_entry(exe, icon)), exe),
{
    let p = "[Desktop Entry]
Type=Application
Name=uwu
Comment=ujhhgtg's whiteboard, unleashed
Exec="@;
    reveal_strlit("[Desktop Entry]
Type=Application
Name=uwu
Comment=ujhhgtg's whiteboard, unleashed
Exec=");
    reveal_strlit("Exec=");
    reveal_strlit(" %f
Icon=");
    let q = " %f
Icon="@;
    let r = "
Terminal=false
MimeType=application/x-owo;
Categories=Utility;Graphics;
"@;
    let n = p.len() as int;
    let a = p.take(n - 6);
    assert(p.subrange(n - 6, n) =~= seq!['\n'] + "Exec="@);
    assert(p =~= a + seq!['\n'] + "Exec="@);
    let b = "Exec="@ + exe + q + icon + r;
    assert(desktop_entry(exe, icon) =~= a + seq!['\n'] + b);
    let l: int = 8 + exe.len() as int;
    assert forall|k: int| 0 <= k < l implies #[trigger] b[k] != '\n' by {
        if 5 <= k < 5 + exe.len() {
            assert(b[k] == exe[k - 5]);
        }
    }
    assert(b[l] == '\n');
    assert(b.skip(0) == b);
    lemma_split_lines_step(b, 0, l);
    let line = b.subrange(0, l);
    let value = exe + " %f"@;
    reveal_strlit(" %f");
    assert(q.subrange(0, 3) =~= " %f"@);
    assert(line.skip(5) =~= exe + q.subrange(0, 3));
    assert(line.skip(5) =~= value);
    assert(line.take(5) =~= "Exec="@);
    assert(trim_start(value) == value);
    assert(value.last() == 'f');
    assert(trim_end(value) == value);
    assert(exec_line_current(line, exe));
    lemma_current_after_newline(a, b, exe);
}

} // verus!
