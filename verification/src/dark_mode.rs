pub mod fallback;
pub mod gnome;
pub mod kde;
pub mod macos;
pub mod windows;

use vstd::prelude::*;
use crate::text::{
    chars_of, contains_chars, copy_chars, eq_ignore_ascii_case, eq_ignore_ascii_case_chars, has_prefix,
    has_substring, lemma_split_lines_step, lowercase, split_lines, starts_with_chars, to_lowercase,
    trim, trim_bounds,
};

verus! {

/// What a line of a settings file means inside a scan for `key_a` or
/// `key_b` in section `section`: a section header switches sections (the
/// name compared ignoring ASCII case); inside the section, a trimmed line
/// that opens with a key gives the rest as the value.
pub open spec fn line_meaning(
    line: Seq<char>,
    section: Seq<char>,
    key_a: Seq<char>,
    key_b: Seq<char>,
    in_section: bool,
) -> (bool, Option<Seq<char>>) {
    let t = trim(line);
    if t.len() > 0 && t[0] == '[' {
        (eq_ignore_ascii_case(t, section), None)
    } else if in_section && has_prefix(t, key_a) {
        (in_section, Some(t.skip(key_a.len() as int)))
    } else if in_section && has_prefix(t, key_b) {
        (in_section, Some(t.skip(key_b.len() as int)))
    } else {
        (in_section, None)
    }
}

/// The first value found by scanning `lines` in order.
pub open spec fn scan_lines(
    lines: Seq<Seq<char>>,
    section: Seq<char>,
    key_a: Seq<char>,
    key_b: Seq<char>,
    in_section: bool,
) -> Option<Seq<char>>
    decreases lines.len(),
{
    if lines.len() == 0 {
        None
    } else {
        let (next, value) = line_meaning(lines[0], section, key_a, key_b, in_section);
        if value is Some {
            value
        } else {
            scan_lines(lines.drop_first(), section, key_a, key_b, next)
        }
    }
}

/// The value of `key_a` (or else `key_b`) in section `section` of a
/// settings file, outside of any section at the start.
pub open spec fn config_value(content: Seq<char>, section: Seq<char>, key_a: Seq<char>, key_b: Seq<char>) -> Option<
    Seq<char>,
> {
    scan_lines(split_lines(content), section, key_a, key_b, false)
}

fn line_meaning_exec(line: &[char], section: &[char], key_a: &[char], key_b: &[char], in_section: bool) -> (r: (
    bool,
    Option<Vec<char>>,
))
    ensures
        r.0 == line_meaning(line@, section@, key_a@, key_b@, in_section).0,
        match line_meaning(line@, section@, key_a@, key_b@, in_section).1 {
            Some(v) => r.1 is Some && r.1->Some_0@ == v,
            None => r.1 is None,
        },
{
    let (a, b) = trim_bounds(line);
    let t = &line[a..b];
    assert(t@ == trim(line@));
    if t.len() > 0 && t[0] == '[' {
        return (eq_ignore_ascii_case_chars(t, section), None);
    }
    if in_section && starts_with_chars(t, key_a) {
        let rest = &t[key_a.len()..t.len()];
        return (in_section, Some(copy_chars(rest)));
    }
    if in_section && starts_with_chars(t, key_b) {
        let rest = &t[key_b.len()..t.len()];
        return (in_section, Some(copy_chars(rest)));
    }
    (in_section, None)
}

/// Scans the settings text `content` for `key_a` (or else `key_b`) in
/// section `section`.
pub fn find_config_value(content: &[char], section: &[char], key_a: &[char], key_b: &[char]) -> (r: Option<
    Vec<char>,
>)
    ensures
        match config_value(content@, section@, key_a@, key_b@) {
            Some(v) => r is Some && r->Some_0@ == v,
            None => r is None,
        },
{
    let n = content.len();
    let mut st: usize = 0;
    let mut i: usize = 0;
    let mut in_section = false;
    assert(content@.skip(0) == content@);
    while i < n
        invariant
            n == content@.len(),
            0 <= st <= i <= n,
            forall|k: int| st <= k < i ==> #[trigger] content@[k] != '\n',
            config_value(content@, section@, key_a@, key_b@) == scan_lines(
                split_lines(content@.skip(st as int)),
                section@,
                key_a@,
                key_b@,
                in_section,
            ),
        decreases n - i,
    {
        if content[i] == '\n' {
            proof {
                lemma_split_lines_step(content@, st as int, i as int);
            }
            let line = &content[st..i];
            let (next, value) = line_meaning_exec(line, section, key_a, key_b, in_section);
            proof {
                let ls = split_lines(content@.skip(st as int));
                assert(ls[0] == line@);
                assert(ls.drop_first() == split_lines(content@.skip(i + 1)));
            }
            if value.is_some() {
                return value;
            }
            in_section = next;
            st = i + 1;
        }
        i = i + 1;
    }
    proof {
        lemma_split_lines_step(content@, st as int, n as int);
    }
    let line = &content[st..n];
    let (_next, value) = line_meaning_exec(line, section, key_a, key_b, in_section);
    proof {
        let ls = split_lines(content@.skip(st as int));
        assert(ls[0] == line@);
        assert(ls.drop_first() =~= Seq::<Seq<char>>::empty());
        let m = line_meaning(line@, section@, key_a@, key_b@, in_section);
        assert(scan_lines(ls.drop_first(), section@, key_a@, key_b@, m.0) is None);
        assert(scan_lines(ls, section@, key_a@, key_b@, in_section) == m.1);
    }
    value
}

/// A value names a dark colour scheme: it contains "dark" once lowercased.
pub open spec fn names_dark(value: Seq<char>) -> bool {
    has_substring(lowercase(value), "dark"@)
}

pub(crate) fn names_dark_exec(value: &[char]) -> (b: bool)
    ensures
        b == names_dark(value@),
{
    let lower = to_lowercase(value);
    let dark = chars_of("dark");
    contains_chars(lower.as_slice(), dark.as_slice())
}

/// What a settings file says of dark mode: whether the value found, if
/// any, names a dark scheme.
pub open spec fn config_dark(content: Seq<char>, section: Seq<char>, key_a: Seq<char>, key_b: Seq<char>) -> Option<
    bool,
> {
    match config_value(content, section, key_a, key_b) {
        Some(v) => Some(names_dark(v)),
        None => None,
    }
}


/// The desktop is GNOME or one of its relatives, which keep their settings
/// in gsettings.
pub open spec fn gnome_like(de: Seq<char>) -> bool {
    has_substring(de, "gnome"@) || has_substring(de, "unity"@) || has_substring(de, "budgie"@)
        || has_substring(de, "cinnamon"@) || has_substring(de, "mate"@) || has_substring(de, "lxde"@)
        || has_substring(de, "xfce"@)
}

/// The desktop is KDE Plasma or a Qt desktop.
pub open spec fn kde_like(de: Seq<char>) -> bool {
    has_substring(de, "kde"@) || has_substring(de, "plasma"@) || has_substring(de, "lxqt"@)
}

fn contains_str(hay: &[char], needle: &str) -> (b: bool)
    ensures
        b == has_substring(hay@, needle@),
{
    let n = chars_of(needle);
    contains_chars(hay, n.as_slice())
}

/// Whether the lowercased desktop name `de` is GNOME-like.
pub fn is_gnome_like(de: &str) -> (b: bool)
    ensures
        b == gnome_like(de@),
{
    let d = chars_of(de);
    let h = d.as_slice();
    contains_str(h, "gnome") || contains_str(h, "unity") || contains_str(h, "budgie") || contains_str(h, "cinnamon")
        || contains_str(h, "mate") || contains_str(h, "lxde") || contains_str(h, "xfce")
}

/// Whether the lowercased desktop name `de` is KDE-like.
pub fn is_kde_like(de: &str) -> (b: bool)
    ensures
        b == kde_like(de@),
{
    let d = chars_of(de);
    let h = d.as_slice();
    contains_str(h, "kde") || contains_str(h, "plasma") || contains_str(h, "lxqt")
}

/// One way of asking the desktop whether it is dark.
#[derive(Clone, Copy, PartialEq, Eq, Debug, Structural)]
pub enum Probe {
    /// `gsettings get org.gnome.desktop.interface color-scheme`; the reply is
    /// its standard output when it succeeds.
    ColorScheme,
    /// `gsettings get org.gnome.desktop.interface gtk-theme`.
    GtkTheme,
    /// The text of `$HOME/.config/kdeglobals`.
    KdeGlobals,
    /// The text of `$HOME/.config/qt6ct/qt6ct.conf`.
    Qt6ctConfig,
    /// The text of `$HOME/.config/qt5ct/qt5ct.conf`.
    Qt5ctConfig,
}

/// What a probe's reply says: `None` when the probe failed or its answer
/// does not decide.
pub open spec fn probe_result(p: Probe, reply: Option<Seq<char>>) -> Option<bool> {
    match reply {
        None => None,
        Some(text) => match p {
            Probe::ColorScheme => gnome::color_scheme_dark(gnome::gsettings_value(text)),
            Probe::GtkTheme => Some(has_substring(gnome::gsettings_value(text), "dark"@)),
            Probe::KdeGlobals => kde::spec_kdeglobals(text),
            Probe::Qt6ctConfig => kde::spec_qt_ct_config(text),
            Probe::Qt5ctConfig => kde::spec_qt_ct_config(text),
        },
    }
}

/// What to do next in a detection.
#[derive(Clone, Copy, PartialEq, Eq, Debug, Structural)]
pub enum DarkModeAction {
    /// Run the probe and hand its reply to `Detection::answer`.
    Run(Probe),
    /// Detection is over: dark, light, or unknown.
    Finish(Option<bool>),
}

/// A detection in progress: the probes to try in order, the next one, and
/// the outcome once there is one.
pub struct Detection {
    pub plan: Vec<Probe>,
    pub next: usize,
    pub finished: Option<Option<bool>>,
}

impl Detection {
    /// What the detection asks for in its state.
    pub open spec fn spec_action(&self) -> DarkModeAction {
        match self.finished {
            Some(r) => DarkModeAction::Finish(r),
            None => if self.next < self.plan@.len() {
                DarkModeAction::Run(self.plan@[self.next as int])
            } else {
                DarkModeAction::Finish(None)
            },
        }
    }

    /// The next step of the detection.
    pub fn action(&self) -> (a: DarkModeAction)
        ensures
            a == self.spec_action(),
    {
        match self.finished {
            Some(r) => DarkModeAction::Finish(r),
            None => if self.next < self.plan.len() {
                DarkModeAction::Run(self.plan[self.next])
            } else {
                DarkModeAction::Finish(None)
            },
        }
    }

    /// Takes the reply of the probe that `action` asked for: the first probe
    /// whose reply decides ends the detection with its answer; a probe that
    /// does not decide passes on to the next one, and after the last one
    /// the answer is unknown.
    pub fn answer(&mut self, reply: Option<String>) -> (a: DarkModeAction)
        ensures
            final(self).plan@ == old(self).plan@,
            a == final(self).spec_action(),
            (old(self).finished is Some || old(self).next >= old(self).plan@.len()) ==> *final(self) == *old(self),
            old(self).finished is None && old(self).next < old(self).plan@.len() ==> match probe_result(
                old(self).plan@[old(self).next as int],
                match reply {
                    Some(t) => Some(t@),
                    None => None,
                },
            ) {
                Some(b) => final(self).finished == Some(Some(b)) && final(self).next == old(self).next,
                None => final(self).finished is None && final(self).next == old(self).next + 1,
            },
    {
        if self.finished.is_some() || self.next >= self.plan.len() {
            return self.action();
        }
        let p = self.plan[self.next];
        let r = match reply {
            None => None,
            Some(text) => match p {
                Probe::ColorScheme => gnome::read_color_scheme_value(text.as_str()),
                Probe::GtkTheme => gnome::read_gtk_theme_value(text.as_str()),
                Probe::KdeGlobals => kde::kdeglobals(text.as_str()),
                Probe::Qt6ctConfig => kde::qt_ct_config(text.as_str()),
                Probe::Qt5ctConfig => kde::qt_ct_config(text.as_str()),
            },
        };
        match r {
            Some(b) => {
                self.finished = Some(Some(b));
            },
            None => {
                self.next = self.next + 1;
            },
        }
        self.action()
    }
}

/// The probes for a desktop, in the order they are tried: gsettings on a
/// GNOME-like desktop, the KDE files on a KDE-like one, and for any other
/// desktop both, gsettings first.
pub open spec fn plan_for(de: Seq<char>) -> Seq<Probe> {
    if gnome_like(de) {
        seq![Probe::ColorScheme, Probe::GtkTheme]
    } else if kde_like(de) {
        seq![Probe::KdeGlobals, Probe::Qt6ctConfig, Probe::Qt5ctConfig]
    } else {
        seq![Probe::ColorScheme, Probe::GtkTheme, Probe::KdeGlobals, Probe::Qt6ctConfig, Probe::Qt5ctConfig]
    }
}

/// Starts detecting dark mode on a Linux desktop named `desktop` (the value
/// of `XDG_CURRENT_DESKTOP`, else of `DESKTOP_SESSION`, else empty).
pub fn detect(desktop: &str) -> (d: Detection)
    ensures
        d.plan@ == plan_for(lowercase(desktop@)),
        d.next == 0,
        d.finished is None,
{
    let raw = chars_of(desktop);
    let lower = to_lowercase(raw.as_slice());
    let h = lower.as_slice();
    let gnome = contains_str(h, "gnome") || contains_str(h, "unity") || contains_str(h, "budgie")
        || contains_str(h, "cinnamon") || contains_str(h, "mate") || contains_str(h, "lxde")
        || contains_str(h, "xfce");
    if gnome {
        return gnome::detect();
    }
    let kde = contains_str(h, "kde") || contains_str(h, "plasma") || contains_str(h, "lxqt");
    if kde {
        return kde::detect();
    }
    let mut plan: Vec<Probe> = Vec::new();
    plan.push(Probe::ColorScheme);
    plan.push(Probe::GtkTheme);
    plan.push(Probe::KdeGlobals);
    plan.push(Probe::Qt6ctConfig);
    plan.push(Probe::Qt5ctConfig);
    Detection { plan, next: 0, finished: None }
}

} // verus!
