use sorrow::communication::{Intent, TimeControl};
use sorrow::keyed::KeyedState;
use sorrow::kinds::{
    key_iter, BonfireNodeId, BuildingKind, CraftingRecipeKind, FulfillmentState, NavigationNodeId,
    NodeId, RecipeKind, ResourceKind, ResourceNodeId, RunningState, WorkOrderKind,
};
use sorrow::ui::conditional::{select_branch, Branch};
use sorrow::ui::controls::{
    bonfire_work_orders, button_flags, is_single_tab, pawse_intent, recipe_for_work_order,
    visible_resources, visible_tabs,
};
use sorrow::ui::formatter::ShowSign;
use sorrow::ui::store::mark_loaded;

fn visibility(shown: &[NodeId]) -> KeyedState<NodeId, bool> {
    let mut t = KeyedState::new();
    for node in key_iter::<NodeId>() {
        t.set_state(node, Some(shown.contains(&node)));
    }
    t
}

#[test]
fn conditional_prefers_main_then_first_alternative() {
    assert_eq!(select_branch(true, &vec![true], true), Branch::Main);
    assert_eq!(select_branch(false, &vec![false, true, true], true), Branch::ElseIf(1));
    assert_eq!(select_branch(false, &vec![false], true), Branch::Fallback);
    assert_eq!(select_branch(false, &vec![], false), Branch::Nothing);
}

#[test]
fn work_orders_map_to_recipes() {
    assert_eq!(
        recipe_for_work_order(WorkOrderKind::Craft(CraftingRecipeKind::RefineCatnip)),
        RecipeKind::Crafting(CraftingRecipeKind::RefineCatnip)
    );
    assert_eq!(
        recipe_for_work_order(WorkOrderKind::Construct(BuildingKind::CatnipField)),
        RecipeKind::Building(BuildingKind::CatnipField)
    );
}

#[test]
fn buttons_follow_fulfillment() {
    assert_eq!(button_flags(FulfillmentState::Fulfilled), (false, false));
    assert_eq!(button_flags(FulfillmentState::Unfulfilled), (false, true));
    assert_eq!(button_flags(FulfillmentState::Capped), (true, true));
}

#[test]
fn bonfire_shows_visible_controls_in_order() {
    let t = visibility(&[
        NodeId::Bonfire(BonfireNodeId::CatnipField),
        NodeId::Bonfire(BonfireNodeId::GatherCatnip),
    ]);
    assert_eq!(
        bonfire_work_orders(&t),
        vec![
            WorkOrderKind::Craft(CraftingRecipeKind::GatherCatnip),
            WorkOrderKind::Construct(BuildingKind::CatnipField),
        ]
    );
    assert!(bonfire_work_orders(&visibility(&[])).is_empty());
}

#[test]
fn navigation_shows_visible_tabs() {
    let t = visibility(&[NodeId::Navigation(NavigationNodeId::Bonfire)]);
    let tabs = visible_tabs(&t);
    assert_eq!(tabs, vec![NavigationNodeId::Bonfire]);
    assert!(is_single_tab(&tabs));
    assert!(visible_tabs(&visibility(&[])).is_empty());
    assert!(!is_single_tab(&vec![NavigationNodeId::Bonfire, NavigationNodeId::Bonfire]));
}

#[test]
fn resource_list_shows_visible_rows() {
    let t = visibility(&[NodeId::Resources(ResourceNodeId::Wood)]);
    assert_eq!(visible_resources(&t), vec![ResourceKind::Wood]);
    let t = visibility(&[
        NodeId::Resources(ResourceNodeId::Wood),
        NodeId::Resources(ResourceNodeId::Catnip),
    ]);
    assert_eq!(visible_resources(&t), vec![ResourceKind::Catnip, ResourceKind::Wood]);
}

#[test]
fn pause_button_switches_running_state() {
    assert_eq!(pawse_intent(RunningState::Paused), Intent::TimeControl(TimeControl::Start));
    assert_eq!(pawse_intent(RunningState::Running), Intent::TimeControl(TimeControl::Pause));
}

#[test]
fn first_update_marks_loaded_once() {
    let mut loaded = false;
    assert!(mark_loaded(&mut loaded));
    assert!(loaded);
    assert!(!mark_loaded(&mut loaded));
    assert!(loaded);
}

#[test]
fn numbers_show_sign_only_when_negative_by_default() {
    assert_eq!(ShowSign::default(), ShowSign::NegativeOnly);
}

fn partial_visibility(known: &[(NodeId, bool)]) -> KeyedState<NodeId, bool> {
    let mut t = KeyedState::new();
    for (node, shown) in known {
        t.set_state(*node, Some(*shown));
    }
    t
}

#[test]
fn bonfire_reads_only_its_own_nodes() {
    let t = partial_visibility(&[
        (NodeId::Bonfire(BonfireNodeId::GatherCatnip), false),
        (NodeId::Bonfire(BonfireNodeId::RefineCatnip), true),
        (NodeId::Bonfire(BonfireNodeId::CatnipField), true),
    ]);
    assert_eq!(
        bonfire_work_orders(&t),
        vec![
            WorkOrderKind::Craft(CraftingRecipeKind::RefineCatnip),
            WorkOrderKind::Construct(BuildingKind::CatnipField),
        ]
    );
}

#[test]
fn tabs_and_rows_read_only_their_own_nodes() {
    let t = partial_visibility(&[(NodeId::Navigation(NavigationNodeId::Bonfire), true)]);
    assert_eq!(visible_tabs(&t), vec![NavigationNodeId::Bonfire]);
    let t = partial_visibility(&[
        (NodeId::Resources(ResourceNodeId::Catnip), true),
        (NodeId::Resources(ResourceNodeId::Wood), false),
    ]);
    assert_eq!(visible_resources(&t), vec![ResourceKind::Catnip]);
}
