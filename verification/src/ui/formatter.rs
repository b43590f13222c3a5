use vstd::prelude::*;

verus! {

/// When a formatted number shows its sign.
#[derive(Clone, Copy, Debug, PartialEq, Eq, Structural)]
pub enum ShowSign {
    /// Only negative numbers carry a sign.
    NegativeOnly,
    /// Every number carries a sign.
    Always,
}

impl Default for ShowSign {
    fn default() -> (r: Self)
        ensures
            r == ShowSign::NegativeOnly,
    {
        ShowSign::NegativeOnly
    }
}

} // verus!
