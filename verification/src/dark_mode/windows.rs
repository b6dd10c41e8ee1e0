use vstd::prelude::*;

verus! {

/// Dark mode from the `AppsUseLightTheme` value of the Windows registry
/// (`None` when the key or the value could not be read): 0 means dark.
pub fn detect_from_registry(apps_use_light_theme: Option<u32>) -> (r: Option<bool>)
    ensures
        r == (match apps_use_light_theme {
            Some(v) => Some(v == 0),
            None => None::<bool>,
        }),
{
    match apps_use_light_theme {
        Some(v) => Some(v == 0),
        None => None,
    }
}

} // verus!
