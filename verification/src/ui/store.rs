use vstd::prelude::*;

verus! {

/// Marks the interface as loaded after the engine's first update; tells whether the
/// flag changed, so that only the first update notifies.
pub fn mark_loaded(is_loaded: &mut bool) -> (changed: bool)
    ensures
        *final(is_loaded),
        changed == !*old(is_loaded),
{
    if *is_loaded {
        false
    } else {
        *is_loaded = true;
        true
    }
}

} // verus!
