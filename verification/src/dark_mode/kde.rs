use vstd::prelude::*;
use crate::dark_mode::{
    config_dark, config_value, find_config_value, line_meaning, names_dark, names_dark_exec, probe_result, scan_lines,
    Detection, Probe,
};
use crate::text::{chars_of, eq_ignore_ascii_case, has_prefix, split_lines, trim};

verus! {

/// KDE's `kdeglobals`: the `ColorScheme` (or `colorScheme`) entry of the
/// `[General]` section, such as "BreezeDark".
pub open spec fn spec_kdeglobals(content: Seq<char>) -> Option<bool> {
    config_dark(content, "[General]"@, "ColorScheme="@, "colorScheme="@)
}

/// qt5ct and qt6ct settings: the `color_scheme_path` entry of the
/// `[Appearance]` section, such as ".../darker.conf".
pub open spec fn spec_qt_ct_config(content: Seq<char>) -> Option<bool> {
    config_dark(content, "[Appearance]"@, "color_scheme_path="@, "color_scheme_path="@)
}

/// Reads dark mode from the text of KDE's `kdeglobals` file.
pub fn kdeglobals(content: &str) -> (r: Option<bool>)
    ensures
        r == spec_kdeglobals(content@),
{
    let text = chars_of(content);
    let section = chars_of("[General]");
    let key_a = chars_of("ColorScheme=");
    let key_b = chars_of("colorScheme=");
    match find_config_value(text.as_slice(), section.as_slice(), key_a.as_slice(), key_b.as_slice()) {
        Some(v) => Some(names_dark_exec(v.as_slice())),
        None => None,
    }
}

/// Reads dark mode from the text of a qt5ct or qt6ct settings file.
pub fn qt_ct_config(content: &str) -> (r: Option<bool>)
    ensures
        r == spec_qt_ct_config(content@),
{
    let text = chars_of(content);
    let section = chars_of("[Appearance]");
    let key = chars_of("color_scheme_path=");
    match find_config_value(text.as_slice(), section.as_slice(), key.as_slice(), key.as_slice()) {
        Some(v) => Some(names_dark_exec(v.as_slice())),
        None => None,
    }
}


/// A `kdeglobals` reply that opens with the `[General]` header and then the
/// line `ColorScheme=<value>` (either line with any spacing around it)
/// decides the detection: dark exactly when the value names a dark scheme.
pub proof fn law_kdeglobals_color_scheme_decides(text: Seq<char>, value: Seq<char>)
    requires
        split_lines(text).len() >= 2,
        trim(split_lines(text)[0]) == "[General]"@,
        trim(split_lines(text)[1]) == "ColorScheme="@ + value,
    ensures
        probe_result(Probe::KdeGlobals, Some(text)) == Some(names_dark(value)),
{
    reveal_strlit("[General]");
    reveal_strlit("ColorScheme=");
    reveal_strlit("colorScheme=");
    let lines = split_lines(text);
    let sec = "[General]"@;
    let ka = "ColorScheme="@;
    let kb = "colorScheme="@;
    let entry = ka + value;
    assert(eq_ignore_ascii_case(sec, sec));
    assert(line_meaning(lines[0], sec, ka, kb, false) == (true, Option::<Seq<char>>::None));
    assert(entry[0] == 'C');
    assert(entry.take(ka.len() as int) =~= ka);
    assert(has_prefix(entry, ka));
    assert(entry.skip(ka.len() as int) =~= value);
    assert(line_meaning(lines[1], sec, ka, kb, true) == (true, Some(value)));
    assert(lines.drop_first()[0] == lines[1]);
    assert(scan_lines(lines.drop_first(), sec, ka, kb, true) == Some(value));
    assert(scan_lines(lines, sec, ka, kb, false) == Some(value));
    assert(config_value(text, sec, ka, kb) == Some(value));
}

/// A qt6ct or qt5ct reply that opens with the `[Appearance]` header and then
/// the line `color_scheme_path=<path>` (either line with any spacing around
/// it) decides the detection: dark exactly when the path names a dark
/// scheme.
pub proof fn law_qt_ct_scheme_path_decides(text: Seq<char>, path: Seq<char>)
    requires
        split_lines(text).len() >= 2,
        trim(split_lines(text)[0]) == "[Appearance]"@,
        trim(split_lines(text)[1]) == "color_scheme_path="@ + path,
    ensures
        probe_result(Probe::Qt6ctConfig, Some(text)) == Some(names_dark(path)),
        probe_result(Probe::Qt5ctConfig, Some(text)) == Some(names_dark(path)),
{
    reveal_strlit("[Appearance]");
    reveal_strlit("color_scheme_path=");
    let lines = split_lines(text);
    let sec = "[Appearance]"@;
    let key = "color_scheme_path="@;
    let entry = key + path;
    assert(eq_ignore_ascii_case(sec, sec));
    assert(line_meaning(lines[0], sec, key, key, false) == (true, Option::<Seq<char>>::None));
    assert(entry[0] == 'c');
    assert(entry.take(key.len() as int) =~= key);
    assert(has_prefix(entry, key));
    assert(entry.skip(key.len() as int) =~= path);
    assert(line_meaning(lines[1], sec, key, key, true) == (true, Some(path)));
    assert(lines.drop_first()[0] == lines[1]);
    assert(scan_lines(lines.drop_first(), sec, key, key, true) == Some(path));
    assert(scan_lines(lines, sec, key, key, false) == Some(path));
    assert(config_value(text, sec, key, key) == Some(path));
}

/// The KDE probes, in the order they are tried: `kdeglobals`, then the
/// qt6ct settings, then the qt5ct settings.
pub fn detect() -> (d: Detection)
    ensures
        d.plan@ == seq![Probe::KdeGlobals, Probe::Qt6ctConfig, Probe::Qt5ctConfig],
        d.next == 0,
        d.finished is None,
{
    let mut plan: Vec<Probe> = Vec::new();
    plan.push(Probe::KdeGlobals);
    plan.push(Probe::Qt6ctConfig);
    plan.push(Probe::Qt5ctConfig);
    Detection { plan, next: 0, finished: None }
}

} // verus!
