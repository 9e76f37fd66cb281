//! Access control before a conversion.
use vstd::prelude::*;

verus! {

/// Whether the user may convert.  No licence or subscription is checked
/// yet, so every request is allowed.
pub fn check() -> (r: Result<(), String>)
    ensures
        r is Ok,
{
    Ok(())
}

} // verus!
