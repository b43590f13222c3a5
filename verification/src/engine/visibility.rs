use vstd::prelude::*;

use crate::keyed::{collect_changes, last_value, KeyedState};
use crate::kinds::{
    recipe_node, resource_node, BonfireNodeId, NavigationNodeId, NodeId, RecipeKind, ResourceKind,
    StateKey,
};

verus! {

/// Whether a node of the user interface is shown.
#[derive(Clone, Copy, Debug, PartialEq, Eq, Structural)]
pub enum Visibility {
    Visible,
    Invisible,
}

impl Visibility {
    /// `Visible` for `true`, `Invisible` for `false`.
    pub fn from_visible(is_visible: bool) -> (r: Visibility)
        ensures
            r == (if is_visible { Visibility::Visible } else { Visibility::Invisible }),
    {
        if is_visible {
            Visibility::Visible
        } else {
            Visibility::Invisible
        }
    }

    /// Whether this is `Visible`.
    pub fn is_visible(self) -> (r: bool)
        ensures
            r == (self == Visibility::Visible),
    {
        match self {
            Visibility::Visible => true,
            Visibility::Invisible => false,
        }
    }
}

/// Whether a node is shown when a game starts: the bonfire section and its
/// gathering control; everything else appears when it is unlocked.
pub open spec fn initially_visible(node: NodeId) -> bool {
    node == NodeId::Navigation(NavigationNodeId::Bonfire) || node == NodeId::Bonfire(
        BonfireNodeId::GatherCatnip,
    )
}

impl NodeId {
    /// Whether this node is shown when a game starts.
    pub fn initially_visible(self) -> (r: bool)
        ensures
            r == initially_visible(self),
    {
        match self {
            NodeId::Navigation(NavigationNodeId::Bonfire) => true,
            NodeId::Bonfire(BonfireNodeId::GatherCatnip) => true,
            _ => false,
        }
    }
}

/// The nodes of the unlocked recipes, in the order given.
pub open spec fn unlocked_recipe_nodes(recipes: Seq<(RecipeKind, bool)>) -> Seq<NodeId>
    decreases recipes.len(),
{
    if recipes.len() == 0 {
        Seq::empty()
    } else {
        let rest = unlocked_recipe_nodes(recipes.drop_last());
        if recipes.last().1 {
            rest.push(recipe_node(recipes.last().0))
        } else {
            rest
        }
    }
}

/// The nodes of the unlocked resources, in the order given.
pub open spec fn unlocked_resource_nodes(resources: Seq<(ResourceKind, bool)>) -> Seq<NodeId>
    decreases resources.len(),
{
    if resources.len() == 0 {
        Seq::empty()
    } else {
        let rest = unlocked_resource_nodes(resources.drop_last());
        if resources.last().1 {
            rest.push(resource_node(resources.last().0))
        } else {
            rest
        }
    }
}

/// The row of the resource list that shows `resource`: the row with the resource's
/// number.
pub open spec fn shows_resource(node: NodeId, resource: ResourceKind) -> bool {
    node matches NodeId::Resources(row) && row.key_index() == resource.key_index()
}

/// The bonfire control of `recipe`: the bonfire node in the recipe's place (the
/// bonfire's controls follow the recipes' numbering, after the navigation node).
pub open spec fn shows_recipe(node: NodeId, recipe: RecipeKind) -> bool {
    node is Bonfire && node.key_index() == recipe.key_index() + 1
}

/// `node` is the row of some unlocked resource in `resources`.
pub open spec fn is_row_of_unlocked(node: NodeId, resources: Seq<(ResourceKind, bool)>) -> bool {
    exists|i: int| 0 <= i < resources.len() && resources[i].1 && shows_resource(node, resources[i].0)
}

/// `node` is the bonfire control of some unlocked recipe in `recipes`.
pub open spec fn is_control_of_unlocked(node: NodeId, recipes: Seq<(RecipeKind, bool)>) -> bool {
    exists|i: int| 0 <= i < recipes.len() && recipes[i].1 && shows_recipe(node, recipes[i].0)
}

/// Each unlocked resource reveals its own row.
pub proof fn lemma_unlocked_resources_reveal_their_rows(resources: Seq<(ResourceKind, bool)>)
    ensures
        forall|i: int|
            0 <= i < resources.len() && (#[trigger] resources[i]).1 ==> exists|k: int|
                0 <= k < unlocked_resource_nodes(resources).len() && shows_resource(unlocked_resource_nodes(resources)[k], resources[i].0),
    decreases resources.len(),
{
    if resources.len() > 0 {
        let pre = resources.drop_last();
        let last = resources.len() - 1;
        lemma_unlocked_resources_reveal_their_rows(pre);
        let rest = unlocked_resource_nodes(pre);
        let nodes = unlocked_resource_nodes(resources);
        assert(shows_resource(resource_node(resources[last].0), resources[last].0)) by {
            match resources[last].0 {
                ResourceKind::Catnip => {},
                ResourceKind::Wood => {},
            }
        }
        if resources[last].1 {
            assert(nodes == rest.push(resource_node(resources[last].0)));
        } else {
            assert(nodes == rest);
        }
        assert forall|i: int| 0 <= i < resources.len() && (#[trigger] resources[i]).1 implies exists|k: int|
            0 <= k < nodes.len() && shows_resource(nodes[k], resources[i].0) by {
            if i == last {
                let k = rest.len() as int;
                assert(0 <= k < nodes.len() && shows_resource(nodes[k], resources[i].0));
            } else {
                assert(pre[i] == resources[i]);
                assert(0 <= i < pre.len() && pre[i].1);
                let k = choose|k: int| 0 <= k < rest.len() && shows_resource(rest[k], pre[i].0);
                assert(nodes[k] == rest[k]);
                assert(0 <= k < nodes.len() && shows_resource(nodes[k], resources[i].0));
            }
        }
    }
}

/// Every revealed row is the row of an unlocked resource.
pub proof fn lemma_revealed_rows_are_unlocked(resources: Seq<(ResourceKind, bool)>)
    ensures
        forall|k: int|
            0 <= k < unlocked_resource_nodes(resources).len() ==> is_row_of_unlocked(#[trigger] unlocked_resource_nodes(resources)[k], resources),
    decreases resources.len(),
{
    if resources.len() > 0 {
        let pre = resources.drop_last();
        let last = resources.len() - 1;
        lemma_revealed_rows_are_unlocked(pre);
        let rest = unlocked_resource_nodes(pre);
        let nodes = unlocked_resource_nodes(resources);
        assert(shows_resource(resource_node(resources[last].0), resources[last].0)) by {
            match resources[last].0 {
                ResourceKind::Catnip => {},
                ResourceKind::Wood => {},
            }
        }
        if resources[last].1 {
            assert(nodes == rest.push(resource_node(resources[last].0)));
        } else {
            assert(nodes == rest);
        }
        assert forall|k: int| 0 <= k < nodes.len() implies is_row_of_unlocked(#[trigger] nodes[k], resources) by {
            if k < rest.len() {
                assert(nodes[k] == rest[k]);
                assert(is_row_of_unlocked(rest[k], pre));
                let i = choose|i: int| 0 <= i < pre.len() && pre[i].1 && shows_resource(rest[k], pre[i].0);
                assert(pre[i] == resources[i]);
                assert(0 <= i < resources.len() && resources[i].1 && shows_resource(nodes[k], resources[i].0));
            } else {
                assert(0 <= last < resources.len() && resources[last].1 && shows_resource(nodes[k], resources[last].0));
            }
        }
    }
}

/// Each unlocked recipe reveals its own bonfire control.
pub proof fn lemma_unlocked_recipes_reveal_their_controls(recipes: Seq<(RecipeKind, bool)>)
    ensures
        forall|i: int|
            0 <= i < recipes.len() && (#[trigger] recipes[i]).1 ==> exists|k: int|
                0 <= k < unlocked_recipe_nodes(recipes).len() && shows_recipe(unlocked_recipe_nodes(recipes)[k], recipes[i].0),
    decreases recipes.len(),
{
    if recipes.len() > 0 {
        let pre = recipes.drop_last();
        let last = recipes.len() - 1;
        lemma_unlocked_recipes_reveal_their_controls(pre);
        let rest = unlocked_recipe_nodes(pre);
        let nodes = unlocked_recipe_nodes(recipes);
        assert(shows_recipe(recipe_node(recipes[last].0), recipes[last].0)) by {
            match recipes[last].0 {
                RecipeKind::Crafting(c) => {
                    match c {
                        crate::kinds::CraftingRecipeKind::GatherCatnip => {},
                        crate::kinds::CraftingRecipeKind::RefineCatnip => {},
                    }
                },
                RecipeKind::Building(b) => {},
            }
        }
        if recipes[last].1 {
            assert(nodes == rest.push(recipe_node(recipes[last].0)));
        } else {
            assert(nodes == rest);
        }
        assert forall|i: int| 0 <= i < recipes.len() && (#[trigger] recipes[i]).1 implies exists|k: int|
            0 <= k < nodes.len() && shows_recipe(nodes[k], recipes[i].0) by {
            if i == last {
                let k = rest.len() as int;
                assert(0 <= k < nodes.len() && shows_recipe(nodes[k], recipes[i].0));
            } else {
                assert(pre[i] == recipes[i]);
                assert(0 <= i < pre.len() && pre[i].1);
                let k = choose|k: int| 0 <= k < rest.len() && shows_recipe(rest[k], pre[i].0);
                assert(nodes[k] == rest[k]);
                assert(0 <= k < nodes.len() && shows_recipe(nodes[k], recipes[i].0));
            }
        }
    }
}

/// Every revealed control is the control of an unlocked recipe.
pub proof fn lemma_revealed_controls_are_unlocked(recipes: Seq<(RecipeKind, bool)>)
    ensures
        forall|k: int|
            0 <= k < unlocked_recipe_nodes(recipes).len() ==> is_control_of_unlocked(#[trigger] unlocked_recipe_nodes(recipes)[k], recipes),
    decreases recipes.len(),
{
    if recipes.len() > 0 {
        let pre = recipes.drop_last();
        let last = recipes.len() - 1;
        lemma_revealed_controls_are_unlocked(pre);
        let rest = unlocked_recipe_nodes(pre);
        let nodes = unlocked_recipe_nodes(recipes);
        assert(shows_recipe(recipe_node(recipes[last].0), recipes[last].0)) by {
            match recipes[last].0 {
                RecipeKind::Crafting(c) => {
                    match c {
                        crate::kinds::CraftingRecipeKind::GatherCatnip => {},
                        crate::kinds::CraftingRecipeKind::RefineCatnip => {},
                    }
                },
                RecipeKind::Building(b) => {},
            }
        }
        if recipes[last].1 {
            assert(nodes == rest.push(recipe_node(recipes[last].0)));
        } else {
            assert(nodes == rest);
        }
        assert forall|k: int| 0 <= k < nodes.len() implies is_control_of_unlocked(#[trigger] nodes[k], recipes) by {
            if k < rest.len() {
                assert(nodes[k] == rest[k]);
                assert(is_control_of_unlocked(rest[k], pre));
                let i = choose|i: int| 0 <= i < pre.len() && pre[i].1 && shows_recipe(rest[k], pre[i].0);
                assert(pre[i] == recipes[i]);
                assert(0 <= i < recipes.len() && recipes[i].1 && shows_recipe(nodes[k], recipes[i].0));
            } else {
                assert(0 <= last < recipes.len() && recipes[last].1 && shows_recipe(nodes[k], recipes[last].0));
            }
        }
    }
}

/// The nodes to show after unlocked states changed: the node of each unlocked
/// recipe, then the node of each unlocked resource, in the order given. Nothing is
/// ever hidden again.
pub fn nodes_to_reveal(recipes: &Vec<(RecipeKind, bool)>, resources: &Vec<(ResourceKind, bool)>) -> (r:
    Vec<NodeId>)
    ensures
        r@ == unlocked_recipe_nodes(recipes@) + unlocked_resource_nodes(resources@),
{
    let mut out: Vec<NodeId> = Vec::new();
    let mut i: usize = 0;
    while i < recipes.len()
        invariant
            i <= recipes@.len(),
            out@ == unlocked_recipe_nodes(recipes@.take(i as int)),
        decreases recipes@.len() - i,
    {
        let (recipe, unlocked) = recipes[i];
        proof {
            assert(recipes@.take(i + 1).drop_last() =~= recipes@.take(i as int));
            assert(recipes@.take(i + 1).last() == recipes@[i as int]);
        }
        if unlocked {
            out.push(recipe.node_id());
        }
        i = i + 1;
    }
    proof {
        assert(recipes@.take(recipes@.len() as int) =~= recipes@);
    }
    let ghost from_recipes = out@;
    let mut i: usize = 0;
    while i < resources.len()
        invariant
            i <= resources@.len(),
            out@ == from_recipes + unlocked_resource_nodes(resources@.take(i as int)),
        decreases resources@.len() - i,
    {
        let (resource, unlocked) = resources[i];
        proof {
            assert(resources@.take(i + 1).drop_last() =~= resources@.take(i as int));
            assert(resources@.take(i + 1).last() == resources@[i as int]);
        }
        if unlocked {
            out.push(resource.node_id());
            proof {
                assert(out@ =~= from_recipes + unlocked_resource_nodes(resources@.take(i + 1)));
            }
        }
        i = i + 1;
    }
    proof {
        assert(resources@.take(resources@.len() as int) =~= resources@);
    }
    out
}

/// The change report of node visibilities: nothing when no visibility changed;
/// otherwise whether each changed node is now shown.
pub fn visibility_changes(changed: &Vec<(NodeId, Visibility)>) -> (r: Option<KeyedState<NodeId, bool>>)
    ensures
        r is None <==> changed@.len() == 0,
        r matches Some(t) ==> forall|k: NodeId| #[trigger] t.state(k) == match last_value(changed@, k) {
            Some(v) => Some(v == Visibility::Visible),
            None => None,
        },
{
    let mut shown: Vec<(NodeId, bool)> = Vec::new();
    let mut i: usize = 0;
    while i < changed.len()
        invariant
            i <= changed@.len(),
            shown@.len() == i,
            forall|j: int| 0 <= j < i ==> (#[trigger] shown@[j]).0 == changed@[j].0 && shown@[j].1 == (changed@[j].1 == Visibility::Visible),
        decreases changed@.len() - i,
    {
        let (node, visibility) = changed[i];
        shown.push((node, visibility.is_visible()));
        i = i + 1;
    }
    proof {
        assert forall|k: NodeId| #[trigger] last_value(shown@, k) == match last_value(changed@, k) {
            Some(v) => Some(v == Visibility::Visible),
            None => None,
        } by {
            lemma_last_value_mapped(changed@, shown@, k);
        }
    }
    collect_changes(&shown)
}

/// The last value of a key survives a mapping of the values.
proof fn lemma_last_value_mapped(changed: Seq<(NodeId, Visibility)>, shown: Seq<(NodeId, bool)>, k: NodeId)
    requires
        shown.len() == changed.len(),
        forall|j: int| 0 <= j < changed.len() ==> (#[trigger] shown[j]).0 == changed[j].0 && shown[j].1 == (changed[j].1 == Visibility::Visible),
    ensures
        last_value(shown, k) == match last_value(changed, k) {
            Some(v) => Some(v == Visibility::Visible),
            None => None,
        },
    decreases changed.len(),
{
    if changed.len() > 0 {
        let n = changed.len() - 1;
        assert(shown[n].0 == changed[n].0);
        lemma_last_value_mapped(changed.drop_last(), shown.drop_last(), k);
    }
}

} // verus!
