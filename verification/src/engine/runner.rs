use vstd::prelude::*;

verus! {

/// How long to wait before the next frame, in nanoseconds: what is left of the
/// target frame time `wait` after a frame that took `elapsed`; nothing when there is
/// no target or the frame took at least that long.
pub fn remaining_wait(wait: Option<u128>, elapsed: u128) -> (r: Option<u128>)
    ensures
        r == (match wait {
            Some(w) => if elapsed < w {
                Some((w - elapsed) as u128)
            } else {
                None
            },
            None => None,
        }),
{
    if let Some(w) = wait {
        if elapsed < w {
            return Some(w - elapsed);
        }
    }
    None
}

/// The delay before the next frame: the remaining wait when there is one, otherwise
/// the shortest delay `asap`.
pub fn next_delay(remaining: Option<u128>, asap: u128) -> (r: u128)
    ensures
        r == (match remaining {
            Some(d) => d,
            None => asap,
        }),
{
    match remaining {
        Some(d) => d,
        None => asap,
    }
}

} // verus!
