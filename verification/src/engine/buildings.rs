use vstd::prelude::*;

use crate::kinds::BuildingKind;

verus! {

/// Marks an entity as the building of a kind.
#[derive(Clone, Copy, Debug, PartialEq, Eq, Hash, Structural)]
pub struct Building(pub BuildingKind);

/// How many of a building have been constructed.
#[derive(Clone, Copy, Debug, PartialEq, Eq, Structural)]
pub struct Level(pub u32);

impl Level {
    /// Adds constructed buildings to the level.
    pub fn add_assign(&mut self, rhs: u32)
        requires
            old(self).0 + rhs <= u32::MAX,
        ensures
            final(self).0 == old(self).0 + rhs,
    {
        self.0 = self.0 + rhs;
    }
}

impl From<Level> for u32 {
    fn from(value: Level) -> (r: u32) {
        value.0
    }
}

impl vstd::std_specs::convert::FromSpecImpl<Level> for u32 {
    open spec fn obeys_from_spec() -> bool {
        true
    }

    open spec fn from_spec(v: Level) -> u32 {
        v.0
    }
}

impl From<BuildingKind> for Building {
    fn from(value: BuildingKind) -> (r: Building) {
        Building(value)
    }
}

impl vstd::std_specs::convert::FromSpecImpl<BuildingKind> for Building {
    open spec fn obeys_from_spec() -> bool {
        true
    }

    open spec fn from_spec(v: BuildingKind) -> Building {
        Building(v)
    }
}

} // verus!
