use vstd::prelude::*;

use crate::communication::{Intent, TimeControl};
use crate::keyed::KeyedState;
use crate::kinds::{
    key_iter, BonfireNodeId, BuildingKind, CraftingRecipeKind, FulfillmentState, NavigationNodeId,
    NodeId, RecipeKind, ResourceKind, ResourceNodeId, RunningState, StateKey, WorkOrderKind,
};

verus! {

/// The recipe that a work order carries out.
pub open spec fn work_order_recipe(kind: WorkOrderKind) -> RecipeKind {
    match kind {
        WorkOrderKind::Craft(crafting) => RecipeKind::Crafting(crafting),
        WorkOrderKind::Construct(building) => RecipeKind::Building(building),
    }
}

/// The recipe that a work order carries out.
pub fn recipe_for_work_order(kind: WorkOrderKind) -> (r: RecipeKind)
    ensures
        r == work_order_recipe(kind),
{
    match kind {
        WorkOrderKind::Craft(crafting) => RecipeKind::Crafting(crafting),
        WorkOrderKind::Construct(building) => RecipeKind::Building(building),
    }
}

/// A crafting work order carries out that crafting recipe, and a construction work
/// order the recipe of that building; different work orders carry out different
/// recipes.
pub proof fn lemma_work_order_recipe(kind: WorkOrderKind, other: WorkOrderKind)
    ensures
        forall|c: CraftingRecipeKind| #[trigger] work_order_recipe(WorkOrderKind::Craft(c)) == RecipeKind::Crafting(c),
        forall|b: BuildingKind| #[trigger] work_order_recipe(WorkOrderKind::Construct(b)) == RecipeKind::Building(b),
        kind != other ==> work_order_recipe(kind) != work_order_recipe(other),
{
}

/// How a work-order button looks for a fulfillment state: marked as capped, and
/// disabled unless the recipe is fulfilled.
pub fn button_flags(state: FulfillmentState) -> (r: (bool, bool))
    ensures
        r.0 == (state == FulfillmentState::Capped),
        r.1 == (state != FulfillmentState::Fulfilled),
{
    let capped = match state {
        FulfillmentState::Capped => true,
        _ => false,
    };
    let disabled = match state {
        FulfillmentState::Fulfilled => false,
        _ => true,
    };
    (capped, disabled)
}

/// A visibility table that knows the node of every item.
pub open spec fn knows_nodes<T>(items: Seq<(NodeId, T)>, visible: KeyedState<NodeId, bool>) -> bool {
    forall|j: int| 0 <= j < items.len() ==> visible.state((#[trigger] items[j]).0) is Some
}

/// The items whose node is shown, in the order given.
pub open spec fn shown_items<T>(items: Seq<(NodeId, T)>, visible: KeyedState<NodeId, bool>) -> Seq<T>
    decreases items.len(),
{
    if items.len() == 0 {
        Seq::empty()
    } else {
        let rest = shown_items(items.drop_last(), visible);
        if visible.state(items.last().0) == Some(true) {
            rest.push(items.last().1)
        } else {
            rest
        }
    }
}

/// The items whose node is shown, in the order given.
pub fn visible_items<T: Copy>(items: &Vec<(NodeId, T)>, visible: &KeyedState<NodeId, bool>) -> (r:
    Vec<T>)
    requires
        knows_nodes(items@, *visible),
    ensures
        r@ == shown_items(items@, *visible),
{
    let mut out: Vec<T> = Vec::new();
    let mut i: usize = 0;
    while i < items.len()
        invariant
            i <= items@.len(),
            out@ == shown_items(items@.take(i as int), *visible),
        decreases items@.len() - i,
    {
        let (node, item) = items[i];
        proof {
            assert(items@.take(i + 1).drop_last() =~= items@.take(i as int));
            assert(items@.take(i + 1).last() == items@[i as int]);
        }
        if *visible.get_state(&node) == Some(true) {
            out.push(item);
        }
        i = i + 1;
    }
    proof {
        assert(items@.take(items@.len() as int) =~= items@);
    }
    out
}

/// The bonfire controls, each with the work order it places, in the order the
/// bonfire shows them.
pub open spec fn bonfire_controls() -> Seq<(NodeId, WorkOrderKind)> {
    seq![
        (NodeId::Bonfire(BonfireNodeId::GatherCatnip), WorkOrderKind::Craft(CraftingRecipeKind::GatherCatnip)),
        (NodeId::Bonfire(BonfireNodeId::RefineCatnip), WorkOrderKind::Craft(CraftingRecipeKind::RefineCatnip)),
        (NodeId::Bonfire(BonfireNodeId::CatnipField), WorkOrderKind::Construct(BuildingKind::CatnipField)),
    ]
}

/// The work orders whose bonfire controls are shown, in the bonfire's order.
pub fn bonfire_work_orders(visible: &KeyedState<NodeId, bool>) -> (r: Vec<WorkOrderKind>)
    requires
        visible.state(NodeId::Bonfire(BonfireNodeId::GatherCatnip)) is Some,
        visible.state(NodeId::Bonfire(BonfireNodeId::RefineCatnip)) is Some,
        visible.state(NodeId::Bonfire(BonfireNodeId::CatnipField)) is Some,
    ensures
        r@ == shown_items(bonfire_controls(), *visible),
{
    let controls = vec![
        (NodeId::Bonfire(BonfireNodeId::GatherCatnip), WorkOrderKind::Craft(CraftingRecipeKind::GatherCatnip)),
        (NodeId::Bonfire(BonfireNodeId::RefineCatnip), WorkOrderKind::Craft(CraftingRecipeKind::RefineCatnip)),
        (NodeId::Bonfire(BonfireNodeId::CatnipField), WorkOrderKind::Construct(BuildingKind::CatnipField)),
    ];
    proof {
        assert(controls@ =~= bonfire_controls());
    }
    visible_items(&controls, visible)
}

/// The navigation sections, each with its node, in the order of their numbers.
pub open spec fn navigation_items(tabs: Seq<NavigationNodeId>) -> Seq<(NodeId, NavigationNodeId)> {
    Seq::new(tabs.len(), |i: int| (NodeId::Navigation(tabs[i]), tabs[i]))
}

/// The navigation sections that are shown, in the order of their numbers.
pub fn visible_tabs(visible: &KeyedState<NodeId, bool>) -> (r: Vec<NavigationNodeId>)
    requires
        forall|n: NavigationNodeId| #[trigger] visible.state(NodeId::Navigation(n)) is Some,
    ensures
        exists|all: Seq<NavigationNodeId>|
            all.len() == NavigationNodeId::key_count() && (forall|i: int|
                0 <= i < all.len() ==> (#[trigger] all[i]).key_index() == i) && r@ == shown_items(
                navigation_items(all),
                *visible,
            ),
{
    let tabs = key_iter::<NavigationNodeId>();
    let mut items: Vec<(NodeId, NavigationNodeId)> = Vec::new();
    let mut i: usize = 0;
    while i < tabs.len()
        invariant
            i <= tabs@.len(),
            items@ =~= navigation_items(tabs@.take(i as int)),
        decreases tabs@.len() - i,
    {
        items.push((NodeId::Navigation(tabs[i]), tabs[i]));
        i = i + 1;
    }
    proof {
        assert(tabs@.take(tabs@.len() as int) =~= tabs@);
    }
    visible_items(&items, visible)
}

/// Whether the navigation shows a single section, in which case its button is
/// disabled.
pub fn is_single_tab(tabs: &Vec<NavigationNodeId>) -> (r: bool)
    ensures
        r == (tabs@.len() < 2),
{
    tabs.len() < 2
}

/// The rows of the resource list, each with its resource, in the order of their
/// numbers.
pub open spec fn resource_items(rows: Seq<ResourceNodeId>) -> Seq<(NodeId, ResourceKind)> {
    Seq::new(
        rows.len(),
        |i: int|
            (
                NodeId::Resources(rows[i]),
                match rows[i] {
                    ResourceNodeId::Catnip => ResourceKind::Catnip,
                    ResourceNodeId::Wood => ResourceKind::Wood,
                },
            ),
    )
}

/// The resources whose rows are shown, in the order of the rows.
pub fn visible_resources(visible: &KeyedState<NodeId, bool>) -> (r: Vec<ResourceKind>)
    requires
        forall|n: ResourceNodeId| #[trigger] visible.state(NodeId::Resources(n)) is Some,
    ensures
        exists|rows: Seq<ResourceNodeId>|
            rows.len() == ResourceNodeId::key_count() && (forall|i: int|
                0 <= i < rows.len() ==> (#[trigger] rows[i]).key_index() == i) && r@ == shown_items(
                resource_items(rows),
                *visible,
            ),
{
    let rows = key_iter::<ResourceNodeId>();
    let mut items: Vec<(NodeId, ResourceKind)> = Vec::new();
    let mut i: usize = 0;
    while i < rows.len()
        invariant
            i <= rows@.len(),
            items@ =~= resource_items(rows@.take(i as int)),
        decreases rows@.len() - i,
    {
        let row = rows[i];
        items.push((NodeId::Resources(row), row.resource()));
        proof {
            match row {
                ResourceNodeId::Catnip => {},
                ResourceNodeId::Wood => {},
            }
        }
        i = i + 1;
    }
    proof {
        assert(rows@.take(rows@.len() as int) =~= rows@);
    }
    visible_items(&items, visible)
}

/// The intent of the pause button: resume when paused, pause otherwise.
pub open spec fn pawse_intent_for(state: RunningState) -> Intent {
    if state == RunningState::Paused {
        Intent::TimeControl(TimeControl::Start)
    } else {
        Intent::TimeControl(TimeControl::Pause)
    }
}

/// The intent of the pause button in a running state.
pub fn pawse_intent(state: RunningState) -> (r: Intent)
    ensures
        r == pawse_intent_for(state),
{
    match state {
        RunningState::Paused => Intent::TimeControl(TimeControl::Start),
        RunningState::Running => Intent::TimeControl(TimeControl::Pause),
    }
}

/// Pressing the pause button switches the running state: the engine resolves its
/// intent into the other running state.
pub proof fn lemma_pawse_switches_running_state(state: RunningState)
    ensures
        crate::engine::intents::resolution(pawse_intent_for(state))
            == crate::engine::intents::ResolvedIntent::TimeChanged(
            crate::communication::TimeTransport {
                running_state: Some(
                    if state == RunningState::Paused {
                        RunningState::Running
                    } else {
                        RunningState::Paused
                    },
                ),
            },
        ),
{
}

} // verus!
