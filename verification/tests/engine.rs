use sorrow::communication::{Intent, TimeControl, TimeTransport};
use sorrow::engine::buildings::Level;
use sorrow::engine::calendar::{
    advance_calendar, calendar_changes, initial_calendar, Day, PartialCalendarState, Season, Year,
};
use sorrow::engine::fulfillment::{
    recalculate_fulfillments, recalculate_one, unlocked_after, IngredientCheck, RecipeChecks,
};
use sorrow::engine::index::{query_outcome, IndexedLookupError, LookupIndex, QueryOutcome};
use sorrow::engine::intents::{resolve_intent, resolve_intents, ResolvedIntent};
use sorrow::engine::io::Dispatcher as IoDispatcher;
use sorrow::engine::rpc::{Dispatcher as RpcDispatcher, RemoteEvent};
use sorrow::engine::runner::{next_delay, remaining_wait};
use sorrow::engine::visibility::{nodes_to_reveal, visibility_changes, Visibility};
use sorrow::engine::work_orders::DeltaSetStack;
use sorrow::keyed::{collect_changes, collect_writes, KeyedState};
use sorrow::kinds::{
    key_iter, BonfireNodeId, BuildingKind, CraftingRecipeKind, FulfillmentState, NavigationNodeId,
    NodeId, RecipeKind, ResourceKind, ResourceNodeId, RunningState, SeasonKind, WorkOrderKind,
};

fn tick(times: usize, day: &mut Day, season: &mut Season, year: &mut Year) {
    for _ in 0..times {
        advance_calendar(true, day, season, year);
    }
}

#[test]
fn calendar_starts_on_first_day_of_spring() {
    let (day, season, year) = initial_calendar();
    assert_eq!(day, Day(0));
    assert_eq!(season, Season(SeasonKind::Spring));
    assert_eq!(year, Year(0));
}

#[test]
fn calendar_does_not_move_without_a_tick() {
    let (mut day, mut season, mut year) = initial_calendar();
    advance_calendar(false, &mut day, &mut season, &mut year);
    assert_eq!((day, season, year), (Day(0), Season(SeasonKind::Spring), Year(0)));
}

#[test]
fn calendar_moves_one_day_per_tick() {
    let (mut day, mut season, mut year) = initial_calendar();
    tick(42, &mut day, &mut season, &mut year);
    assert_eq!((day, season, year), (Day(42), Season(SeasonKind::Spring), Year(0)));
}

#[test]
fn last_day_of_season_rolls_into_next_season() {
    let mut day = Day(99);
    let mut season = Season(SeasonKind::Autumn);
    let mut year = Year(3);
    advance_calendar(true, &mut day, &mut season, &mut year);
    assert_eq!((day, season, year), (Day(0), Season(SeasonKind::Winter), Year(3)));
}

#[test]
fn last_day_of_winter_starts_a_new_year() {
    let mut day = Day(99);
    let mut season = Season(SeasonKind::Winter);
    let mut year = Year(3);
    advance_calendar(true, &mut day, &mut season, &mut year);
    assert_eq!((day, season, year), (Day(0), Season(SeasonKind::Spring), Year(4)));
}

#[test]
fn a_year_of_ticks_returns_to_the_same_date_next_year() {
    let mut day = Day(17);
    let mut season = Season(SeasonKind::Summer);
    let mut year = Year(2);
    tick(400, &mut day, &mut season, &mut year);
    assert_eq!((day, season, year), (Day(17), Season(SeasonKind::Summer), Year(3)));
}

#[test]
fn a_season_of_ticks_moves_to_the_next_season() {
    let (mut day, mut season, mut year) = initial_calendar();
    tick(100, &mut day, &mut season, &mut year);
    assert_eq!((day, season, year), (Day(0), Season(SeasonKind::Summer), Year(0)));
}

#[test]
fn calendar_reports_only_changed_components() {
    let r = calendar_changes(Day(5), Season(SeasonKind::Winter), Year(7), true, false, true);
    assert_eq!(
        r,
        Some(PartialCalendarState { day: Some(5), season: None, year: Some(7) })
    );
    assert_eq!(
        calendar_changes(Day(5), Season(SeasonKind::Winter), Year(7), false, false, false),
        None
    );
    assert_eq!(
        calendar_changes(Day(5), Season(SeasonKind::Winter), Year(7), false, true, false),
        Some(PartialCalendarState { day: None, season: Some(SeasonKind::Winter), year: None })
    );
}

#[test]
fn default_partial_calendar_is_empty() {
    let s = PartialCalendarState::default();
    assert_eq!(s, PartialCalendarState { day: None, season: None, year: None });
}

#[test]
fn intents_resolve_one_by_one() {
    assert_eq!(resolve_intent(Intent::Load), ResolvedIntent::Loaded);
    let order = WorkOrderKind::Construct(BuildingKind::CatnipField);
    assert_eq!(resolve_intent(Intent::QueueWorkOrder(order)), ResolvedIntent::WorkOrder(order));
    assert_eq!(
        resolve_intent(Intent::TimeControl(TimeControl::Pause)),
        ResolvedIntent::TimeChanged(TimeTransport { running_state: Some(RunningState::Paused) })
    );
    assert_eq!(
        resolve_intent(Intent::TimeControl(TimeControl::Start)),
        ResolvedIntent::TimeChanged(TimeTransport { running_state: Some(RunningState::Running) })
    );
}

#[test]
fn intents_resolve_in_order() {
    let craft = WorkOrderKind::Craft(CraftingRecipeKind::GatherCatnip);
    let inputs = vec![Intent::QueueWorkOrder(craft), Intent::Load, Intent::QueueWorkOrder(craft)];
    let out = resolve_intents(&inputs);
    assert_eq!(
        out,
        vec![ResolvedIntent::WorkOrder(craft), ResolvedIntent::Loaded, ResolvedIntent::WorkOrder(craft)]
    );
    assert!(resolve_intents(&Vec::new()).is_empty());
}

#[test]
fn io_dispatcher_hands_out_messages_in_order() {
    let mut d: IoDispatcher<&str, u32, i32, char> = IoDispatcher::new();
    assert!(!d.is_connected());
    assert!(d.responder().is_none());
    d.created("scope");
    assert!(!d.is_connected());
    d.connected(7);
    assert!(d.is_connected());
    assert_eq!(d.responder(), Some((&"scope", &7)));
    d.received(1);
    d.received(2);
    assert_eq!(d.take_inputs(), vec![1, 2]);
    assert!(d.take_inputs().is_empty());
    d.queue_outputs(vec!['a', 'b']);
    d.queue_outputs(vec!['c']);
    assert_eq!(d.send_responses(), vec!['a', 'b', 'c']);
    assert!(d.send_responses().is_empty());
    d.disconnected();
    assert!(!d.is_connected());
    d.connected(8);
    d.destroyed();
    assert!(!d.is_connected());
}

#[test]
fn rpc_dispatcher_applies_events_in_order() {
    let mut d: RpcDispatcher<&str, u32, Intent> = RpcDispatcher::new();
    assert!(d.responder().is_none());
    d.receive_all(vec![
        RemoteEvent::Created("scope"),
        RemoteEvent::Received(Intent::Load),
        RemoteEvent::Connected(3),
        RemoteEvent::Received(Intent::TimeControl(TimeControl::Pause)),
    ]);
    assert_eq!(d.responder(), Some((&"scope", &3)));
    assert_eq!(
        d.drain_inbox(),
        vec![Intent::Load, Intent::TimeControl(TimeControl::Pause)]
    );
    assert!(d.drain_inbox().is_empty());
    d.receive_all(vec![RemoteEvent::Disconnected(3)]);
    assert!(d.responder().is_none());
    d.receive(RemoteEvent::Connected(4));
    assert_eq!(d.responder(), Some((&"scope", &4)));
}

#[test]
fn lookup_index_reads_back_what_was_written() {
    let mut index: LookupIndex<ResourceKind> = LookupIndex::new();
    assert_eq!(index.get(&ResourceKind::Catnip), None);
    assert_eq!(index.lookup(&ResourceKind::Catnip), Err(IndexedLookupError::KeyNotFound));
    index.insert(ResourceKind::Catnip, 11);
    index.insert(ResourceKind::Wood, 12);
    assert_eq!(index.get(&ResourceKind::Catnip), Some(11));
    assert_eq!(index.entity_of(&ResourceKind::Wood), 12);
    assert_eq!(index.lookup(&ResourceKind::Wood), Ok(12));
    index.insert(ResourceKind::Catnip, 21);
    assert_eq!(index.get(&ResourceKind::Catnip), Some(21));
    let mut keys = index.keys();
    keys.sort();
    assert_eq!(keys, vec![ResourceKind::Catnip, ResourceKind::Wood]);
    index.remove(&ResourceKind::Catnip);
    assert_eq!(index.get(&ResourceKind::Catnip), None);
    assert_eq!(index.get(&ResourceKind::Wood), Some(12));
    assert_eq!(index.keys(), vec![ResourceKind::Wood]);
}

#[test]
fn lookup_index_over_nodes_keeps_keys_apart() {
    let mut index: LookupIndex<NodeId> = LookupIndex::new();
    index.insert(NodeId::Resources(ResourceNodeId::Wood), 5);
    index.insert(NodeId::Bonfire(BonfireNodeId::CatnipField), 6);
    assert_eq!(index.get(&NodeId::Resources(ResourceNodeId::Wood)), Some(5));
    assert_eq!(index.get(&NodeId::Bonfire(BonfireNodeId::CatnipField)), Some(6));
    assert_eq!(index.get(&NodeId::Resources(ResourceNodeId::Catnip)), None);
    assert_eq!(index.keys().len(), 2);
}

#[test]
fn query_outcome_reports_vanished_entities() {
    assert_eq!(query_outcome(QueryOutcome::Found), Ok(()));
    assert_eq!(query_outcome(QueryOutcome::NoSuchEntity), Err(IndexedLookupError::ValueNotFound));
}

fn stored(resource: ResourceKind, over_capacity: bool, insufficient: bool) -> IngredientCheck {
    IngredientCheck { resource, crafted_by: None, over_capacity, insufficient }
}

fn game_book(catnip_short: bool) -> Vec<RecipeChecks> {
    vec![
        RecipeChecks {
            recipe: RecipeKind::Crafting(CraftingRecipeKind::GatherCatnip),
            ingredients: vec![],
        },
        RecipeChecks {
            recipe: RecipeKind::Crafting(CraftingRecipeKind::RefineCatnip),
            ingredients: vec![stored(ResourceKind::Catnip, false, catnip_short)],
        },
        RecipeChecks {
            recipe: RecipeKind::Building(BuildingKind::CatnipField),
            ingredients: vec![IngredientCheck {
                resource: ResourceKind::Wood,
                crafted_by: Some(CraftingRecipeKind::RefineCatnip),
                over_capacity: false,
                insufficient: true,
            }],
        },
    ]
}

#[test]
fn recipe_without_ingredients_is_fulfilled() {
    let book = game_book(true);
    assert_eq!(
        recalculate_one(&book, RecipeKind::Crafting(CraftingRecipeKind::GatherCatnip), 3),
        Some(FulfillmentState::Fulfilled)
    );
}

#[test]
fn short_ingredient_leaves_recipe_unfulfilled() {
    let book = game_book(true);
    assert_eq!(
        recalculate_one(&book, RecipeKind::Crafting(CraftingRecipeKind::RefineCatnip), 3),
        Some(FulfillmentState::Unfulfilled)
    );
}

#[test]
fn crafted_ingredient_follows_its_crafting_recipe() {
    let book = game_book(false);
    assert_eq!(
        recalculate_one(&book, RecipeKind::Building(BuildingKind::CatnipField), 3),
        Some(FulfillmentState::Fulfilled)
    );
    let book = game_book(true);
    assert_eq!(
        recalculate_one(&book, RecipeKind::Building(BuildingKind::CatnipField), 3),
        Some(FulfillmentState::Unfulfilled)
    );
    assert_eq!(recalculate_one(&book, RecipeKind::Building(BuildingKind::CatnipField), 0), None);
}

#[test]
fn capacity_is_checked_before_amount() {
    let book = vec![RecipeChecks {
        recipe: RecipeKind::Building(BuildingKind::CatnipField),
        ingredients: vec![
            stored(ResourceKind::Catnip, true, true),
            stored(ResourceKind::Wood, false, true),
        ],
    }];
    assert_eq!(
        recalculate_one(&book, RecipeKind::Building(BuildingKind::CatnipField), 1),
        Some(FulfillmentState::Capped)
    );
    let book = vec![RecipeChecks {
        recipe: RecipeKind::Building(BuildingKind::CatnipField),
        ingredients: vec![
            stored(ResourceKind::Catnip, false, true),
            stored(ResourceKind::Wood, true, false),
        ],
    }];
    assert_eq!(
        recalculate_one(&book, RecipeKind::Building(BuildingKind::CatnipField), 1),
        Some(FulfillmentState::Unfulfilled)
    );
}

#[test]
fn unknown_recipe_cannot_be_decided() {
    let book = vec![];
    assert_eq!(recalculate_one(&book, RecipeKind::Building(BuildingKind::CatnipField), 5), None);
}

#[test]
fn every_recipe_gets_its_fulfillment() {
    let book = game_book(false);
    let table = recalculate_fulfillments(&book).expect("all recipes decidable");
    assert_eq!(
        *table.get_state(&RecipeKind::Crafting(CraftingRecipeKind::GatherCatnip)),
        Some(FulfillmentState::Fulfilled)
    );
    assert_eq!(
        *table.get_state(&RecipeKind::Crafting(CraftingRecipeKind::RefineCatnip)),
        Some(FulfillmentState::Fulfilled)
    );
    assert_eq!(
        *table.get_state(&RecipeKind::Building(BuildingKind::CatnipField)),
        Some(FulfillmentState::Fulfilled)
    );
}

#[test]
fn circular_crafting_cannot_be_decided() {
    let book = vec![RecipeChecks {
        recipe: RecipeKind::Crafting(CraftingRecipeKind::RefineCatnip),
        ingredients: vec![IngredientCheck {
            resource: ResourceKind::Wood,
            crafted_by: Some(CraftingRecipeKind::RefineCatnip),
            over_capacity: false,
            insufficient: false,
        }],
    }];
    assert!(recalculate_fulfillments(&book).is_none());
}

#[test]
fn unlocking_is_permanent() {
    assert!(unlocked_after(true, &vec![false, false]));
    assert!(unlocked_after(false, &vec![false, true]));
    assert!(!unlocked_after(false, &vec![false, false]));
    assert!(!unlocked_after(false, &vec![]));
}

#[test]
fn unlocked_recipes_and_resources_reveal_their_nodes() {
    let recipes = vec![
        (RecipeKind::Crafting(CraftingRecipeKind::RefineCatnip), true),
        (RecipeKind::Building(BuildingKind::CatnipField), false),
    ];
    let resources = vec![(ResourceKind::Catnip, true), (ResourceKind::Wood, false)];
    let nodes = nodes_to_reveal(&recipes, &resources);
    assert_eq!(
        nodes,
        vec![
            NodeId::Bonfire(BonfireNodeId::RefineCatnip),
            NodeId::Resources(ResourceNodeId::Catnip)
        ]
    );
    assert!(nodes_to_reveal(&vec![], &vec![]).is_empty());
}

#[test]
fn visibility_changes_report_last_state() {
    let changed = vec![
        (NodeId::Resources(ResourceNodeId::Wood), Visibility::Visible),
        (NodeId::Navigation(NavigationNodeId::Bonfire), Visibility::Invisible),
    ];
    let t = visibility_changes(&changed).expect("changes present");
    assert_eq!(*t.get_state(&NodeId::Resources(ResourceNodeId::Wood)), Some(true));
    assert_eq!(*t.get_state(&NodeId::Navigation(NavigationNodeId::Bonfire)), Some(false));
    assert_eq!(*t.get_state(&NodeId::Resources(ResourceNodeId::Catnip)), None);
    assert!(visibility_changes(&vec![]).is_none());
}

#[test]
fn nodes_shown_at_start() {
    assert!(NodeId::Navigation(NavigationNodeId::Bonfire).initially_visible());
    assert!(NodeId::Bonfire(BonfireNodeId::GatherCatnip).initially_visible());
    assert!(!NodeId::Bonfire(BonfireNodeId::RefineCatnip).initially_visible());
    assert!(!NodeId::Resources(ResourceNodeId::Catnip).initially_visible());
    assert_eq!(Visibility::from_visible(true), Visibility::Visible);
    assert_eq!(Visibility::from_visible(false), Visibility::Invisible);
}

#[test]
fn keyed_state_keeps_last_write() {
    let writes = vec![
        (BuildingKind::CatnipField, 1u32),
        (BuildingKind::CatnipField, 4u32),
    ];
    let t = collect_writes(&writes);
    assert_eq!(*t.get_state(&BuildingKind::CatnipField), Some(4));
    assert!(collect_changes::<BuildingKind, u32>(&vec![]).is_none());
    let mut t: KeyedState<ResourceKind, u32> = KeyedState::new();
    assert!(t.present_entries().is_empty());
    t.set_state(ResourceKind::Wood, Some(3));
    t.set_state(ResourceKind::Catnip, Some(2));
    assert_eq!(
        t.present_entries(),
        vec![(ResourceKind::Catnip, 2), (ResourceKind::Wood, 3)]
    );
    t.set_state(ResourceKind::Catnip, None);
    assert_eq!(t.present_entries(), vec![(ResourceKind::Wood, 3)]);
}

#[test]
fn key_iter_lists_each_key_once_in_order() {
    assert_eq!(key_iter::<ResourceKind>(), vec![ResourceKind::Catnip, ResourceKind::Wood]);
    assert_eq!(
        key_iter::<RecipeKind>(),
        vec![
            RecipeKind::Crafting(CraftingRecipeKind::GatherCatnip),
            RecipeKind::Crafting(CraftingRecipeKind::RefineCatnip),
            RecipeKind::Building(BuildingKind::CatnipField),
        ]
    );
    assert_eq!(key_iter::<NodeId>().len(), 6);
}

#[test]
fn frame_waits_for_what_is_left() {
    assert_eq!(remaining_wait(Some(20), 5), Some(15));
    assert_eq!(remaining_wait(Some(20), 20), None);
    assert_eq!(remaining_wait(Some(20), 25), None);
    assert_eq!(remaining_wait(None, 5), None);
    assert_eq!(next_delay(Some(15), 1), 15);
    assert_eq!(next_delay(None, 1), 1);
}

#[test]
fn building_levels_add_up() {
    let mut level = Level(2);
    level.add_assign(1);
    assert_eq!(level, Level(3));
    let n: u32 = level.into();
    assert_eq!(n, 3);
}

#[test]
fn rolled_back_work_order_leaves_no_trace() {
    let mut stack: DeltaSetStack<Vec<u32>> = DeltaSetStack::new(vec![1]);
    stack.push_new(vec![]);
    stack.top_mut().push(5);
    assert_eq!(stack.depth(), 2);
    stack.roll_back();
    assert_eq!(stack.depth(), 1);
    assert_eq!(stack.levels_ref(), &vec![vec![1]]);
    stack.push_new(vec![]);
    stack.top_mut().push(7);
    stack.commit();
    assert_eq!(stack.levels_ref(), &vec![vec![1], vec![7]]);
    assert_eq!(stack.top(), &vec![7]);
}

#[test]
fn default_states() {
    assert_eq!(FulfillmentState::default(), FulfillmentState::Unfulfilled);
    assert_eq!(RunningState::default(), RunningState::Running);
    assert_eq!(SeasonKind::Winter.next(), SeasonKind::Spring);
    assert_eq!(ResourceNodeId::Wood.resource(), ResourceKind::Wood);
    assert_eq!(
        RecipeKind::Building(BuildingKind::CatnipField).node_id(),
        NodeId::Bonfire(BonfireNodeId::CatnipField)
    );
    assert_eq!(ResourceKind::Catnip.node_id(), NodeId::Resources(ResourceNodeId::Catnip));
}

#[test]
fn crafting_chain_listed_backwards_is_decided() {
    let crafted = |resource, by| IngredientCheck {
        resource,
        crafted_by: Some(by),
        over_capacity: false,
        insufficient: false,
    };
    let book = vec![
        RecipeChecks {
            recipe: RecipeKind::Building(BuildingKind::CatnipField),
            ingredients: vec![crafted(ResourceKind::Wood, CraftingRecipeKind::RefineCatnip)],
        },
        RecipeChecks {
            recipe: RecipeKind::Crafting(CraftingRecipeKind::RefineCatnip),
            ingredients: vec![crafted(ResourceKind::Catnip, CraftingRecipeKind::GatherCatnip)],
        },
        RecipeChecks {
            recipe: RecipeKind::Crafting(CraftingRecipeKind::GatherCatnip),
            ingredients: vec![stored(ResourceKind::Catnip, false, true)],
        },
    ];
    let table = recalculate_fulfillments(&book).expect("crafting without circles is decided");
    assert_eq!(
        *table.get_state(&RecipeKind::Building(BuildingKind::CatnipField)),
        Some(FulfillmentState::Unfulfilled)
    );
    assert_eq!(
        *table.get_state(&RecipeKind::Crafting(CraftingRecipeKind::RefineCatnip)),
        Some(FulfillmentState::Unfulfilled)
    );
}

#[test]
fn index_holds_the_last_carrier_of_each_key() {
    let mut index: LookupIndex<BuildingKind> = LookupIndex::new();
    index.insert(BuildingKind::CatnipField, 3);
    index.remove(&BuildingKind::CatnipField);
    assert_eq!(index.get(&BuildingKind::CatnipField), None);
    index.insert(BuildingKind::CatnipField, 8);
    assert_eq!(index.get(&BuildingKind::CatnipField), Some(8));
}
