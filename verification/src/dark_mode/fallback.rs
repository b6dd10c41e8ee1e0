use vstd::prelude::*;

verus! {

/// Dark mode on a platform without a way to ask: unknown.
pub fn detect() -> (r: Option<bool>)
    ensures
        r is None,
{
    None
}

} // verus!
