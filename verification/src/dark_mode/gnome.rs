use vstd::prelude::*;
use crate::dark_mode::{Detection, Probe};
use crate::text::{chars_of, contains_chars, has_substring, lowercase, to_lowercase, trim, trim_bounds};

verus! {

/// A gsettings reply as it is read: trimmed, then lowercased.
pub open spec fn gsettings_value(stdout: Seq<char>) -> Seq<char> {
    lowercase(trim(stdout))
}

/// What GNOME's `color-scheme` key says: `prefer-dark` is dark, while
/// `prefer-light` and `default` are light; anything else does not decide.
pub open spec fn color_scheme_dark(value: Seq<char>) -> Option<bool> {
    if has_substring(value, "dark"@) {
        Some(true)
    } else if has_substring(value, "light"@) || has_substring(value, "default"@) {
        Some(false)
    } else {
        None
    }
}

fn gsettings_value_exec(stdout: &str) -> (v: Vec<char>)
    ensures
        v@ == gsettings_value(stdout@),
{
    let raw = chars_of(stdout);
    let (a, b) = trim_bounds(raw.as_slice());
    let t = &raw.as_slice()[a..b];
    to_lowercase(t)
}

/// Reads the `color-scheme` reply of gsettings.
pub fn read_color_scheme_value(stdout: &str) -> (r: Option<bool>)
    ensures
        r == color_scheme_dark(gsettings_value(stdout@)),
{
    let v = gsettings_value_exec(stdout);
    let dark = chars_of("dark");
    let light = chars_of("light");
    let default = chars_of("default");
    if contains_chars(v.as_slice(), dark.as_slice()) {
        Some(true)
    } else if contains_chars(v.as_slice(), light.as_slice()) || contains_chars(v.as_slice(), default.as_slice()) {
        Some(false)
    } else {
        None
    }
}

/// Reads the `gtk-theme` reply of gsettings: a theme named like
/// "Adwaita-dark" is dark, any other is light.
pub fn read_gtk_theme_value(stdout: &str) -> (r: Option<bool>)
    ensures
        r == Some(has_substring(gsettings_value(stdout@), "dark"@)),
{
    let v = gsettings_value_exec(stdout);
    let dark = chars_of("dark");
    Some(contains_chars(v.as_slice(), dark.as_slice()))
}

/// The GNOME probes, in the order they are tried: the `color-scheme` key of
/// GNOME 42 and later, then the name of the GTK theme.
pub fn detect() -> (d: Detection)
    ensures
        d.plan@ == seq![Probe::ColorScheme, Probe::GtkTheme],
        d.next == 0,
        d.finished is None,
{
    let mut plan: Vec<Probe> = Vec::new();
    plan.push(Probe::ColorScheme);
    plan.push(Probe::GtkTheme);
    Detection { plan, next: 0, finished: None }
}

} // verus!
