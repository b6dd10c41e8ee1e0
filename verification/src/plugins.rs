use vstd::prelude::*;
use crate::text::{append_str, chars_of, same_chars, string_from_chars};

verus! {

broadcast use vstd::string::group_string_axioms;

/// `c` is an ASCII letter or digit, or an underscore.
pub open spec fn id_char(c: char) -> bool {
    ('a' <= c <= 'z') || ('A' <= c <= 'Z') || ('0' <= c <= '9') || c == '_'
}

/// A plugin id is a non-empty run of ASCII letters, digits and underscores
/// (`[a-zA-Z0-9_]+`).
pub open spec fn valid_plugin_id(id: Seq<char>) -> bool {
    id.len() > 0 && forall|i: int| 0 <= i < id.len() ==> id_char(#[trigger] id[i])
}

/// Error given when a plugin's id is already taken by a loaded plugin.
pub struct PluginAlreadyLoaded {
    /// The duplicate plugin id.
    pub id: String,
}

/// The text of a [`PluginAlreadyLoaded`] error.
pub open spec fn already_loaded_message(id: Seq<char>) -> Seq<char> {
    "plugin '"@ + id + "' already loaded"@
}

impl PluginAlreadyLoaded {
    /// The error as text.
    pub fn message(&self) -> (s: String)
        ensures
            s@ == already_loaded_message(self.id@),
    {
        let mut out: Vec<char> = Vec::new();
        append_str(&mut out, "plugin '");
        append_str(&mut out, self.id.as_str());
        append_str(&mut out, "' already loaded");
        string_from_chars(out.as_slice())
    }
}

/// Why a plugin library is turned away.
pub enum PluginRejection {
    /// The plugin was built by another compiler than the host.
    RustcMismatch { plugin: String, host: String },
    /// The plugin's id holds a character other than a letter, digit or underscore.
    InvalidId { id: String },
    /// A plugin with the same id is loaded already.
    AlreadyLoaded(PluginAlreadyLoaded),
}

/// The text of a rejection.
pub open spec fn rejection_message(r: PluginRejection) -> Seq<char> {
    match r {
        PluginRejection::RustcMismatch { plugin, host } => "rustc version mismatch: plugin uses '"@
            + plugin@ + "' but host is '"@ + host@ + "'"@,
        PluginRejection::InvalidId { id } => "plugin id '"@ + id@
            + "' contains invalid characters — only letters, digits, and underscores allowed"@,
        PluginRejection::AlreadyLoaded(e) => already_loaded_message(e.id@),
    }
}

impl PluginRejection {
    /// The rejection as text.
    pub fn message(&self) -> (s: String)
        ensures
            s@ == rejection_message(*self),
    {
        match self {
            PluginRejection::RustcMismatch { plugin, host } => {
                let mut out: Vec<char> = Vec::new();
                append_str(&mut out, "rustc version mismatch: plugin uses '");
                append_str(&mut out, plugin.as_str());
                append_str(&mut out, "' but host is '");
                append_str(&mut out, host.as_str());
                append_str(&mut out, "'");
                string_from_chars(out.as_slice())
            },
            PluginRejection::InvalidId { id } => {
                let mut out: Vec<char> = Vec::new();
                append_str(&mut out, "plugin id '");
                append_str(&mut out, id.as_str());
                append_str(
                    &mut out,
                    "' contains invalid characters — only letters, digits, and underscores allowed",
                );
                string_from_chars(out.as_slice())
            },
            PluginRejection::AlreadyLoaded(e) => e.message(),
        }
    }
}

/// Accepts a plugin only when the compiler version it reports is the host's.
pub fn check_rustc_version(plugin_version: &str, host_version: &str) -> (r: Result<(), PluginRejection>)
    ensures
        plugin_version@ == host_version@ <==> r is Ok,
        r is Err ==> r->Err_0 is RustcMismatch && r->Err_0->plugin@ == plugin_version@
            && r->Err_0->host@ == host_version@,
{
    let p = chars_of(plugin_version);
    let h = chars_of(host_version);
    if same_chars(p.as_slice(), h.as_slice()) {
        Ok(())
    } else {
        Err(PluginRejection::RustcMismatch { plugin: plugin_version.to_owned(), host: host_version.to_owned() })
    }
}

/// Whether `id` is a non-empty run of ASCII letters, digits and underscores.
pub fn is_valid_plugin_id(id: &str) -> (b: bool)
    ensures
        b == valid_plugin_id(id@),
{
    let chars = chars_of(id);
    let n = chars.len();
    if n == 0 {
        return false;
    }
    let mut i: usize = 0;
    while i < n
        invariant
            n == chars@.len(),
            chars@ == id@,
            0 <= i <= n,
            forall|k: int| 0 <= k < i ==> id_char(#[trigger] chars@[k]),
        decreases n - i,
    {
        let c = chars[i];
        if !(('a' <= c && c <= 'z') || ('A' <= c && c <= 'Z') || ('0' <= c && c <= '9') || c == '_') {
            return false;
        }
        i = i + 1;
    }
    true
}

/// `id` is one of `existing`.
pub open spec fn id_taken(id: Seq<char>, existing: Seq<&str>) -> bool {
    exists|i: int| 0 <= i < existing.len() && (#[trigger] existing[i])@ == id
}

/// Accepts a created plugin's id: it must be well formed, and no loaded
/// plugin may have it. The form is checked first.
pub fn check_plugin_id(id: &str, existing_ids: &[&str]) -> (r: Result<(), PluginRejection>)
    ensures
        r is Ok <==> valid_plugin_id(id@) && !id_taken(id@, existing_ids@),
        !valid_plugin_id(id@) ==> r is Err && r->Err_0 is InvalidId && r->Err_0->InvalidId_id@ == id@,
        valid_plugin_id(id@) && id_taken(id@, existing_ids@) ==> r is Err && r->Err_0 is AlreadyLoaded
            && r->Err_0->AlreadyLoaded_0.id@ == id@,
{
    if !is_valid_plugin_id(id) {
        return Err(PluginRejection::InvalidId { id: id.to_owned() });
    }
    let want = chars_of(id);
    let n = existing_ids.len();
    let mut i: usize = 0;
    while i < n
        invariant
            n == existing_ids@.len(),
            want@ == id@,
            valid_plugin_id(id@),
            0 <= i <= n,
            forall|k: int| 0 <= k < i ==> (#[trigger] existing_ids@[k])@ != id@,
        decreases n - i,
    {
        let other = chars_of(existing_ids[i]);
        if same_chars(other.as_slice(), want.as_slice()) {
            assert(existing_ids@[i as int]@ == id@);
            return Err(PluginRejection::AlreadyLoaded(PluginAlreadyLoaded { id: id.to_owned() }));
        }
        i = i + 1;
    }
    Ok(())
}

} // verus!
