use vstd::prelude::*;

verus! {

/// A finite enumeration whose values are numbered densely from zero.
///
/// Tables keyed by such a type hold one slot per value, and lookup indexes use the
/// number as the hash key.
pub trait StateKey: Sized + Copy {
    /// The number of this key.
    spec fn key_index(self) -> nat;

    /// How many keys the type has.
    spec fn key_count() -> nat;

    fn index(&self) -> (r: usize)
        ensures
            r == self.key_index(),
    ;

    fn count() -> (r: usize)
        ensures
            r == Self::key_count(),
    ;

    fn from_index(i: usize) -> (r: Self)
        requires
            i < Self::key_count(),
        ensures
            r.key_index() == i,
    ;

    proof fn lemma_index_bounded(k: Self)
        ensures
            k.key_index() < Self::key_count(),
            Self::key_count() <= u32::MAX,
    ;

    proof fn lemma_index_injective(a: Self, b: Self)
        ensures
            a.key_index() == b.key_index() ==> a == b,
    ;
}

/// Every key of `K`, in the order of their numbers: the `n`-th element is the key
/// numbered `n`, so each key occurs exactly once.
pub fn key_iter<K: StateKey>() -> (r: Vec<K>)
    ensures
        r@.len() == K::key_count(),
        forall|i: int| 0 <= i < r@.len() ==> (#[trigger] r@[i]).key_index() == i,
        forall|k: K| #[trigger] r@[k.key_index() as int] == k,
{
    let n = K::count();
    let mut out: Vec<K> = Vec::new();
    let mut i: usize = 0;
    while i < n
        invariant
            n == K::key_count(),
            i <= n,
            out@.len() == i,
            forall|j: int| 0 <= j < i ==> (#[trigger] out@[j]).key_index() == j,
        decreases n - i,
    {
        out.push(K::from_index(i));
        i = i + 1;
    }
    assert forall|k: K| #[trigger] out@[k.key_index() as int] == k by {
        K::lemma_index_bounded(k);
        let j = k.key_index() as int;
        K::lemma_index_injective(out@[j], k);
    }
    out
}

/// The four seasons of the in-game calendar.
#[derive(Clone, Copy, Debug, PartialEq, Eq, Hash, Structural)]
pub enum SeasonKind {
    Spring,
    Summer,
    Autumn,
    Winter,
}

/// Position of a season in the yearly cycle.
pub open spec fn season_index(s: SeasonKind) -> nat {
    match s {
        SeasonKind::Spring => 0,
        SeasonKind::Summer => 1,
        SeasonKind::Autumn => 2,
        SeasonKind::Winter => 3,
    }
}

/// The season at a position of the yearly cycle (taken modulo four).
pub open spec fn season_at(i: nat) -> SeasonKind {
    if i % 4 == 0 {
        SeasonKind::Spring
    } else if i % 4 == 1 {
        SeasonKind::Summer
    } else if i % 4 == 2 {
        SeasonKind::Autumn
    } else {
        SeasonKind::Winter
    }
}

impl SeasonKind {
    /// The season that follows this one; winter is followed by spring.
    pub fn next(self) -> (r: SeasonKind)
        ensures
            season_index(r) == (season_index(self) + 1) % 4,
            r == season_at(season_index(self) + 1),
    {
        match self {
            SeasonKind::Spring => SeasonKind::Summer,
            SeasonKind::Summer => SeasonKind::Autumn,
            SeasonKind::Autumn => SeasonKind::Winter,
            SeasonKind::Winter => SeasonKind::Spring,
        }
    }
}

/// The resources of the game.
#[derive(Clone, Copy, Debug, PartialEq, Eq, Hash, PartialOrd, Ord, Structural)]
pub enum ResourceKind {
    Catnip,
    Wood,
}

impl StateKey for ResourceKind {
    open spec fn key_index(self) -> nat {
        match self {
            ResourceKind::Catnip => 0,
            ResourceKind::Wood => 1,
        }
    }

    open spec fn key_count() -> nat {
        2
    }

    fn index(&self) -> (r: usize) {
        match self {
            ResourceKind::Catnip => 0,
            ResourceKind::Wood => 1,
        }
    }

    fn count() -> (r: usize) {
        2
    }

    fn from_index(i: usize) -> (r: Self) {
        if i == 0 {
            ResourceKind::Catnip
        } else {
            ResourceKind::Wood
        }
    }

    proof fn lemma_index_bounded(k: Self) {
    }

    proof fn lemma_index_injective(a: Self, b: Self) {
    }
}

/// The buildings of the game.
#[derive(Clone, Copy, Debug, PartialEq, Eq, Hash, PartialOrd, Ord, Structural)]
pub enum BuildingKind {
    CatnipField,
}

impl StateKey for BuildingKind {
    open spec fn key_index(self) -> nat {
        0
    }

    open spec fn key_count() -> nat {
        1
    }

    fn index(&self) -> (r: usize) {
        0
    }

    fn count() -> (r: usize) {
        1
    }

    fn from_index(i: usize) -> (r: Self) {
        BuildingKind::CatnipField
    }

    proof fn lemma_index_bounded(k: Self) {
    }

    proof fn lemma_index_injective(a: Self, b: Self) {
    }
}

/// Recipes that turn ingredients (or nothing) into resources.
#[derive(Clone, Copy, Debug, PartialEq, Eq, Hash, PartialOrd, Ord, Structural)]
pub enum CraftingRecipeKind {
    GatherCatnip,
    RefineCatnip,
}

impl StateKey for CraftingRecipeKind {
    open spec fn key_index(self) -> nat {
        match self {
            CraftingRecipeKind::GatherCatnip => 0,
            CraftingRecipeKind::RefineCatnip => 1,
        }
    }

    open spec fn key_count() -> nat {
        2
    }

    fn index(&self) -> (r: usize) {
        match self {
            CraftingRecipeKind::GatherCatnip => 0,
            CraftingRecipeKind::RefineCatnip => 1,
        }
    }

    fn count() -> (r: usize) {
        2
    }

    fn from_index(i: usize) -> (r: Self) {
        if i == 0 {
            CraftingRecipeKind::GatherCatnip
        } else {
            CraftingRecipeKind::RefineCatnip
        }
    }

    proof fn lemma_index_bounded(k: Self) {
    }

    proof fn lemma_index_injective(a: Self, b: Self) {
    }
}

/// Every recipe: crafting a resource or constructing a building.
#[derive(Clone, Copy, Debug, PartialEq, Eq, Hash, PartialOrd, Ord, Structural)]
pub enum RecipeKind {
    Crafting(CraftingRecipeKind),
    Building(BuildingKind),
}

impl StateKey for RecipeKind {
    open spec fn key_index(self) -> nat {
        match self {
            RecipeKind::Crafting(c) => c.key_index(),
            RecipeKind::Building(b) => 2 + b.key_index(),
        }
    }

    open spec fn key_count() -> nat {
        3
    }

    fn index(&self) -> (r: usize) {
        match self {
            RecipeKind::Crafting(c) => c.index(),
            RecipeKind::Building(b) => 2 + b.index(),
        }
    }

    fn count() -> (r: usize) {
        3
    }

    fn from_index(i: usize) -> (r: Self) {
        if i < 2 {
            RecipeKind::Crafting(CraftingRecipeKind::from_index(i))
        } else {
            RecipeKind::Building(BuildingKind::from_index(i - 2))
        }
    }

    proof fn lemma_index_bounded(k: Self) {
    }

    proof fn lemma_index_injective(a: Self, b: Self) {
        match (a, b) {
            (RecipeKind::Crafting(x), RecipeKind::Crafting(y)) => {
                CraftingRecipeKind::lemma_index_injective(x, y);
            },
            _ => {
            },
        }
    }
}

/// Whether a recipe can currently be carried out.
#[derive(Clone, Copy, Debug, PartialEq, Eq, Hash, Structural)]
pub enum FulfillmentState {
    /// Every ingredient is available.
    Fulfilled,
    /// Some ingredient is missing.
    Unfulfilled,
    /// Some ingredient needs more than its resource can ever hold.
    Capped,
}

impl Default for FulfillmentState {
    fn default() -> (r: Self)
        ensures
            r == FulfillmentState::Unfulfilled,
    {
        FulfillmentState::Unfulfilled
    }
}

/// Whether simulated time advances.
#[derive(Clone, Copy, Debug, PartialEq, Eq, Hash, Structural)]
pub enum RunningState {
    Running,
    Paused,
}

impl Default for RunningState {
    fn default() -> (r: Self)
        ensures
            r == RunningState::Running,
    {
        RunningState::Running
    }
}

/// The work a player can order.
#[derive(Clone, Copy, Debug, PartialEq, Eq, Hash, Structural)]
pub enum WorkOrderKind {
    Craft(CraftingRecipeKind),
    Construct(BuildingKind),
}

/// Sections of the navigation bar.
#[derive(Clone, Copy, Debug, PartialEq, Eq, Hash, PartialOrd, Ord, Structural)]
pub enum NavigationNodeId {
    Bonfire,
}

impl StateKey for NavigationNodeId {
    open spec fn key_index(self) -> nat {
        0
    }

    open spec fn key_count() -> nat {
        1
    }

    fn index(&self) -> (r: usize) {
        0
    }

    fn count() -> (r: usize) {
        1
    }

    fn from_index(i: usize) -> (r: Self) {
        NavigationNodeId::Bonfire
    }

    proof fn lemma_index_bounded(k: Self) {
    }

    proof fn lemma_index_injective(a: Self, b: Self) {
    }
}

/// Controls of the bonfire section.
#[derive(Clone, Copy, Debug, PartialEq, Eq, Hash, PartialOrd, Ord, Structural)]
pub enum BonfireNodeId {
    GatherCatnip,
    RefineCatnip,
    CatnipField,
}

/// Rows of the resource list.
#[derive(Clone, Copy, Debug, PartialEq, Eq, Hash, PartialOrd, Ord, Structural)]
pub enum ResourceNodeId {
    Catnip,
    Wood,
}

impl StateKey for ResourceNodeId {
    open spec fn key_index(self) -> nat {
        match self {
            ResourceNodeId::Catnip => 0,
            ResourceNodeId::Wood => 1,
        }
    }

    open spec fn key_count() -> nat {
        2
    }

    fn index(&self) -> (r: usize) {
        match self {
            ResourceNodeId::Catnip => 0,
            ResourceNodeId::Wood => 1,
        }
    }

    fn count() -> (r: usize) {
        2
    }

    fn from_index(i: usize) -> (r: Self) {
        if i == 0 {
            ResourceNodeId::Catnip
        } else {
            ResourceNodeId::Wood
        }
    }

    proof fn lemma_index_bounded(k: Self) {
    }

    proof fn lemma_index_injective(a: Self, b: Self) {
    }
}

impl ResourceNodeId {
    /// The resource shown by this row.
    pub fn resource(self) -> (r: ResourceKind)
        ensures
            r.key_index() == self.key_index(),
    {
        match self {
            ResourceNodeId::Catnip => ResourceKind::Catnip,
            ResourceNodeId::Wood => ResourceKind::Wood,
        }
    }
}

/// Every element of the user interface whose visibility the engine decides.
#[derive(Clone, Copy, Debug, PartialEq, Eq, Hash, PartialOrd, Ord, Structural)]
pub enum NodeId {
    Navigation(NavigationNodeId),
    Bonfire(BonfireNodeId),
    Resources(ResourceNodeId),
}

impl StateKey for NodeId {
    open spec fn key_index(self) -> nat {
        match self {
            NodeId::Navigation(_) => 0,
            NodeId::Bonfire(BonfireNodeId::GatherCatnip) => 1,
            NodeId::Bonfire(BonfireNodeId::RefineCatnip) => 2,
            NodeId::Bonfire(BonfireNodeId::CatnipField) => 3,
            NodeId::Resources(ResourceNodeId::Catnip) => 4,
            NodeId::Resources(ResourceNodeId::Wood) => 5,
        }
    }

    open spec fn key_count() -> nat {
        6
    }

    fn index(&self) -> (r: usize) {
        match self {
            NodeId::Navigation(_) => 0,
            NodeId::Bonfire(BonfireNodeId::GatherCatnip) => 1,
            NodeId::Bonfire(BonfireNodeId::RefineCatnip) => 2,
            NodeId::Bonfire(BonfireNodeId::CatnipField) => 3,
            NodeId::Resources(ResourceNodeId::Catnip) => 4,
            NodeId::Resources(ResourceNodeId::Wood) => 5,
        }
    }

    fn count() -> (r: usize) {
        6
    }

    fn from_index(i: usize) -> (r: Self) {
        if i == 0 {
            NodeId::Navigation(NavigationNodeId::Bonfire)
        } else if i == 1 {
            NodeId::Bonfire(BonfireNodeId::GatherCatnip)
        } else if i == 2 {
            NodeId::Bonfire(BonfireNodeId::RefineCatnip)
        } else if i == 3 {
            NodeId::Bonfire(BonfireNodeId::CatnipField)
        } else if i == 4 {
            NodeId::Resources(ResourceNodeId::Catnip)
        } else {
            NodeId::Resources(ResourceNodeId::Wood)
        }
    }

    proof fn lemma_index_bounded(k: Self) {
    }

    proof fn lemma_index_injective(a: Self, b: Self) {
        match (a, b) {
            (NodeId::Navigation(x), NodeId::Navigation(y)) => {
                NavigationNodeId::lemma_index_injective(x, y);
            },
            _ => {
            },
        }
    }
}

/// The bonfire control that orders a recipe.
pub open spec fn recipe_node(r: RecipeKind) -> NodeId {
    match r {
        RecipeKind::Crafting(CraftingRecipeKind::GatherCatnip) => NodeId::Bonfire(
            BonfireNodeId::GatherCatnip,
        ),
        RecipeKind::Crafting(CraftingRecipeKind::RefineCatnip) => NodeId::Bonfire(
            BonfireNodeId::RefineCatnip,
        ),
        RecipeKind::Building(BuildingKind::CatnipField) => NodeId::Bonfire(
            BonfireNodeId::CatnipField,
        ),
    }
}

/// The resource-list row that shows a resource.
pub open spec fn resource_node(r: ResourceKind) -> NodeId {
    match r {
        ResourceKind::Catnip => NodeId::Resources(ResourceNodeId::Catnip),
        ResourceKind::Wood => NodeId::Resources(ResourceNodeId::Wood),
    }
}

impl RecipeKind {
    /// The bonfire control of this recipe.
    pub fn node_id(self) -> (r: NodeId)
        ensures
            r == recipe_node(self),
    {
        match self {
            RecipeKind::Crafting(CraftingRecipeKind::GatherCatnip) => NodeId::Bonfire(
                BonfireNodeId::GatherCatnip,
            ),
            RecipeKind::Crafting(CraftingRecipeKind::RefineCatnip) => NodeId::Bonfire(
                BonfireNodeId::RefineCatnip,
            ),
            RecipeKind::Building(BuildingKind::CatnipField) => NodeId::Bonfire(
                BonfireNodeId::CatnipField,
            ),
        }
    }
}

impl ResourceKind {
    /// The resource-list row of this resource.
    pub fn node_id(self) -> (r: NodeId)
        ensures
            r == resource_node(self),
    {
        match self {
            ResourceKind::Catnip => NodeId::Resources(ResourceNodeId::Catnip),
            ResourceKind::Wood => NodeId::Resources(ResourceNodeId::Wood),
        }
    }
}

} // verus!
