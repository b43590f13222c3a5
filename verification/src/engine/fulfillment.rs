use vstd::prelude::*;

use crate::keyed::KeyedState;
use crate::kinds::{CraftingRecipeKind, FulfillmentState, RecipeKind, ResourceKind, StateKey};

verus! {

/// What the simulation measured about one ingredient of a recipe.
#[derive(Clone, Copy, Debug, PartialEq, Eq, Structural)]
pub struct IngredientCheck {
    /// The resource the ingredient consumes.
    pub resource: ResourceKind,
    /// The recipe that crafts the resource, when the resource is crafted rather than
    /// stored.
    pub crafted_by: Option<CraftingRecipeKind>,
    /// The resource has a capacity and the required amount exceeds it.
    pub over_capacity: bool,
    /// The resource holds less than the required amount.
    pub insufficient: bool,
}

/// A recipe with the checks of its ingredients, in the order of its ingredients.
pub struct RecipeChecks {
    pub recipe: RecipeKind,
    pub ingredients: Vec<IngredientCheck>,
}

/// The first position of `recipe` among the checked recipes.
pub open spec fn recipe_position(book: Seq<RecipeChecks>, recipe: RecipeKind) -> Option<int>
    decreases book.len(),
{
    if book.len() == 0 {
        None
    } else if book.last().recipe == recipe {
        match recipe_position(book.drop_last(), recipe) {
            Some(i) => Some(i),
            None => Some(book.len() - 1),
        }
    } else {
        recipe_position(book.drop_last(), recipe)
    }
}

/// The fulfillment of a recipe, looking through at most `fuel` crafted resources:
/// the first ingredient that is crafted decides by the fulfillment of its crafting
/// recipe; otherwise the first ingredient over capacity makes the recipe capped and
/// the first one that is short makes it unfulfilled; a recipe with no such
/// ingredient is fulfilled. `None` when the recipe has no checks or the fuel runs out.
pub open spec fn fulfillment(book: Seq<RecipeChecks>, recipe: RecipeKind, fuel: nat) -> Option<
    FulfillmentState,
>
    decreases fuel, 1nat, 0nat,
{
    match recipe_position(book, recipe) {
        None => None,
        Some(i) => {
            if 0 <= i < book.len() {
                fulfillment_from(book, book[i].ingredients@, 0, fuel)
            } else {
                None
            }
        },
    }
}

/// The fulfillment decided by the ingredients from position `i` on.
pub open spec fn fulfillment_from(
    book: Seq<RecipeChecks>,
    ingredients: Seq<IngredientCheck>,
    i: nat,
    fuel: nat,
) -> Option<FulfillmentState>
    decreases fuel, 0nat, ingredients.len() - i,
{
    if i >= ingredients.len() {
        Some(FulfillmentState::Fulfilled)
    } else {
        let ingredient = ingredients[i as int];
        match ingredient.crafted_by {
            Some(crafting) => {
                if fuel == 0 {
                    None
                } else {
                    fulfillment(book, RecipeKind::Crafting(crafting), (fuel - 1) as nat)
                }
            },
            None => {
                if ingredient.over_capacity {
                    Some(FulfillmentState::Capped)
                } else if ingredient.insufficient {
                    Some(FulfillmentState::Unfulfilled)
                } else {
                    fulfillment_from(book, ingredients, i + 1, fuel)
                }
            },
        }
    }
}

/// The position of `recipe` among the checked recipes.
fn find_recipe(book: &Vec<RecipeChecks>, recipe: RecipeKind) -> (r: Option<usize>)
    ensures
        r matches Some(i) ==> recipe_position(book@, recipe) == Some(i as int) && i < book@.len(),
        r is None ==> recipe_position(book@, recipe) is None,
{
    let mut i: usize = 0;
    while i < book.len()
        invariant
            i <= book@.len(),
            recipe_position(book@.take(i as int), recipe) is None,
        decreases book@.len() - i,
    {
        proof {
            assert(book@.take(i + 1).drop_last() =~= book@.take(i as int));
        }
        if book[i].recipe == recipe {
            proof {
                lemma_position_in_prefix(book@, recipe, (i + 1) as int);
                assert(recipe_position(book@.take(i + 1), recipe) == Some(i as int));
            }
            return Some(i);
        }
        i = i + 1;
    }
    proof {
        assert(book@.take(book@.len() as int) =~= book@);
    }
    None
}

/// A position found in a prefix is the position in the whole sequence.
proof fn lemma_position_in_prefix(book: Seq<RecipeChecks>, recipe: RecipeKind, n: int)
    requires
        0 <= n <= book.len(),
        recipe_position(book.take(n), recipe) is Some,
    ensures
        recipe_position(book, recipe) == recipe_position(book.take(n), recipe),
    decreases book.len() - n,
{
    if n < book.len() {
        assert(book.take(n + 1).drop_last() =~= book.take(n));
        lemma_position_in_prefix(book, recipe, n + 1);
    } else {
        assert(book.take(n) =~= book);
    }
}

/// The fulfillment of one recipe, looking through at most `fuel` crafted resources;
/// `None` where the recipe has no checks or the fuel runs out.
pub fn recalculate_one(book: &Vec<RecipeChecks>, recipe: RecipeKind, fuel: usize) -> (r: Option<
    FulfillmentState,
>)
    ensures
        r == fulfillment(book@, recipe, fuel as nat),
    decreases fuel, 1nat, 0nat,
{
    match find_recipe(book, recipe) {
        None => None,
        Some(pos) => {
            let ingredients = &book[pos].ingredients;
            let mut i: usize = 0;
            while i < ingredients.len()
                invariant
                    pos < book@.len(),
                    ingredients@ == book@[pos as int].ingredients@,
                    recipe_position(book@, recipe) == Some(pos as int),
                    i <= ingredients@.len(),
                    fulfillment(book@, recipe, fuel as nat) == fulfillment_from(
                        book@,
                        ingredients@,
                        i as nat,
                        fuel as nat,
                    ),
                decreases ingredients@.len() - i,
            {
                let ingredient = ingredients[i];
                match ingredient.crafted_by {
                    Some(crafting) => {
                        if fuel == 0 {
                            return None;
                        }
                        return recalculate_one(book, RecipeKind::Crafting(crafting), fuel - 1);
                    },
                    None => {
                        if ingredient.over_capacity {
                            return Some(FulfillmentState::Capped);
                        }
                        if ingredient.insufficient {
                            return Some(FulfillmentState::Unfulfilled);
                        }
                    },
                }
                i = i + 1;
            }
            Some(FulfillmentState::Fulfilled)
        },
    }
}

/// The fulfillment of every checked recipe, looking through at most as many crafted
/// resources as there are recipes; `None` when some recipe cannot be decided that way
/// (an ingredient is crafted by a recipe without checks, or crafting goes in a
/// circle).
pub fn recalculate_fulfillments(book: &Vec<RecipeChecks>) -> (r: Option<
    KeyedState<RecipeKind, FulfillmentState>,
>)
    ensures
        r is Some <==> forall|i: int|
            0 <= i < book@.len() ==> fulfillment(book@, #[trigger] book@[i].recipe, book@.len() as nat)
                is Some,
        r matches Some(t) ==> forall|k: RecipeKind|
            #[trigger] t.state(k) == (if recipe_position(book@, k) is Some {
                fulfillment(book@, k, book@.len() as nat)
            } else {
                None
            }),
{
    let fuel = book.len();
    let mut table: KeyedState<RecipeKind, FulfillmentState> = KeyedState::new();
    let mut i: usize = 0;
    while i < book.len()
        invariant
            fuel == book@.len(),
            i <= book@.len(),
            forall|j: int| 0 <= j < i ==> fulfillment(book@, #[trigger] book@[j].recipe, fuel as nat) is Some,
            forall|k: RecipeKind|
                #[trigger] table.state(k) == (if exists|j: int| 0 <= j < i && book@[j].recipe == k {
                    fulfillment(book@, k, fuel as nat)
                } else {
                    None
                }),
        decreases book@.len() - i,
    {
        let recipe = book[i].recipe;
        match recalculate_one(book, recipe, fuel) {
            None => {
                return None;
            },
            Some(state) => {
                table.set_state(recipe, Some(state));
                proof {
                    assert forall|k: RecipeKind|
                        #[trigger] table.state(k) == (if exists|j: int| 0 <= j < i + 1 && book@[j].recipe == k {
                            fulfillment(book@, k, fuel as nat)
                        } else {
                            None
                        }) by {
                        if k == recipe {
                            assert(book@[i as int].recipe == k);
                        } else {
                            if exists|j: int| 0 <= j < i + 1 && book@[j].recipe == k {
                                let j = choose|j: int| 0 <= j < i + 1 && book@[j].recipe == k;
                                assert(j < i);
                            }
                        }
                    }
                }
            },
        }
        i = i + 1;
    }
    proof {
        assert forall|k: RecipeKind|
            (exists|j: int| 0 <= j < book@.len() && book@[j].recipe == k) == (recipe_position(book@, k) is Some) by {
            lemma_position_exists(book@, k);
        }
    }
    Some(table)
}

/// A recipe has a position exactly when it occurs among the checked recipes.
proof fn lemma_position_exists(book: Seq<RecipeChecks>, recipe: RecipeKind)
    ensures
        (exists|j: int| 0 <= j < book.len() && book[j].recipe == recipe) == (recipe_position(book, recipe) is Some),
    decreases book.len(),
{
    if book.len() > 0 {
        lemma_position_exists(book.drop_last(), recipe);
        if exists|j: int| 0 <= j < book.len() && book[j].recipe == recipe {
            let j = choose|j: int| 0 <= j < book.len() && book[j].recipe == recipe;
            if j < book.len() - 1 {
                assert(book.drop_last()[j].recipe == recipe);
            }
        }
        if exists|j: int| 0 <= j < book.drop_last().len() && book.drop_last()[j].recipe == recipe {
            let j = choose|j: int| 0 <= j < book.drop_last().len() && book.drop_last()[j].recipe == recipe;
            assert(book[j].recipe == recipe);
        }
    }
}

/// The position of a recipe, when there is one, holds that recipe.
proof fn lemma_position_found(book: Seq<RecipeChecks>, recipe: RecipeKind)
    ensures
        recipe_position(book, recipe) matches Some(p) ==> 0 <= p < book.len() && book[p].recipe == recipe,
    decreases book.len(),
{
    if book.len() > 0 {
        lemma_position_found(book.drop_last(), recipe);
    }
}

/// A ranking of the checked recipes that orders crafting: every checked recipe is
/// ranked below the number of checked recipes, and every crafted ingredient is
/// crafted by a checked recipe of lower rank than the recipe that uses it. Such a
/// ranking exists exactly when crafting does not go in a circle and every crafted
/// ingredient's recipe is checked (rank a recipe by the longest chain of crafting
/// below it).
pub open spec fn ranks_crafting(book: Seq<RecipeChecks>, rank: spec_fn(RecipeKind) -> nat) -> bool {
    &&& forall|p: int| 0 <= p < book.len() ==> rank((#[trigger] book[p]).recipe) < book.len()
    &&& forall|p: int, j: int|
        0 <= p < book.len() && 0 <= j < book[p].ingredients@.len() ==> match (
            #[trigger] book[p].ingredients@[j]).crafted_by {
            Some(c) => recipe_position(book, RecipeKind::Crafting(c)) is Some && rank(
                RecipeKind::Crafting(c),
            ) < rank(book[p].recipe),
            None => true,
        }
}

/// A checked recipe ranked within the fuel has a fulfillment.
proof fn lemma_ranked_fulfillment(
    book: Seq<RecipeChecks>,
    rank: spec_fn(RecipeKind) -> nat,
    recipe: RecipeKind,
    fuel: nat,
)
    requires
        ranks_crafting(book, rank),
        recipe_position(book, recipe) is Some,
        rank(recipe) <= fuel,
    ensures
        fulfillment(book, recipe, fuel) is Some,
    decreases fuel, 1nat, 0nat,
{
    lemma_position_found(book, recipe);
    let p = recipe_position(book, recipe)->0;
    lemma_ranked_fulfillment_from(book, rank, p, 0, fuel);
}

/// The same, for the ingredients of the recipe at position `p` from position `i` on.
proof fn lemma_ranked_fulfillment_from(
    book: Seq<RecipeChecks>,
    rank: spec_fn(RecipeKind) -> nat,
    p: int,
    i: nat,
    fuel: nat,
)
    requires
        ranks_crafting(book, rank),
        0 <= p < book.len(),
        rank(book[p].recipe) <= fuel,
    ensures
        fulfillment_from(book, book[p].ingredients@, i, fuel) is Some,
    decreases fuel, 0nat, book[p].ingredients@.len() - i,
{
    let ingredients = book[p].ingredients@;
    if i < ingredients.len() {
        let ingredient = book[p].ingredients@[i as int];
        match ingredient.crafted_by {
            Some(c) => {
                lemma_ranked_fulfillment(book, rank, RecipeKind::Crafting(c), (fuel - 1) as nat);
            },
            None => {
                if !ingredient.over_capacity && !ingredient.insufficient {
                    lemma_ranked_fulfillment_from(book, rank, p, i + 1, fuel);
                }
            },
        }
    }
}

/// A book whose crafting does not go in a circle (it has a ranking that orders
/// crafting) gives every checked recipe a fulfillment within as many crafted
/// resources as there are recipes, so `recalculate_fulfillments` returns a table.
pub proof fn lemma_ranked_book_gives_table(book: Seq<RecipeChecks>, rank: spec_fn(RecipeKind) -> nat)
    requires
        ranks_crafting(book, rank),
    ensures
        forall|i: int|
            0 <= i < book.len() ==> fulfillment(book, #[trigger] book[i].recipe, book.len() as nat)
                is Some,
{
    assert forall|i: int|
        0 <= i < book.len() implies fulfillment(book, #[trigger] book[i].recipe, book.len() as nat)
        is Some by {
        lemma_position_exists(book, book[i].recipe);
        lemma_ranked_fulfillment(book, rank, book[i].recipe, book.len() as nat);
    }
}

/// The ingredient checks of a recipe: those of its first entry in the book, none when
/// it has no entry.
pub open spec fn ingredients_of(book: Seq<RecipeChecks>, recipe: RecipeKind) -> Seq<IngredientCheck> {
    match recipe_position(book, recipe) {
        Some(p) => book[p].ingredients@,
        None => Seq::empty(),
    }
}

/// The ingredients before position `j` are all stored (not crafted), within capacity
/// and available.
pub open spec fn available_before(ingredients: Seq<IngredientCheck>, j: int) -> bool {
    forall|k: int|
        0 <= k < j ==> (#[trigger] ingredients[k]).crafted_by is None && !ingredients[k].over_capacity
            && !ingredients[k].insufficient
}

/// Available ingredients are passed over: the decision from `i` is the decision
/// from `j` when every ingredient in between is stored, within capacity and available.
proof fn lemma_pass_available(
    book: Seq<RecipeChecks>,
    ingredients: Seq<IngredientCheck>,
    i: int,
    j: int,
    fuel: nat,
)
    requires
        0 <= i <= j <= ingredients.len(),
        available_before(ingredients, j),
    ensures
        fulfillment_from(book, ingredients, i as nat, fuel) == fulfillment_from(
            book,
            ingredients,
            j as nat,
            fuel,
        ),
    decreases j - i,
{
    if i < j {
        assert(ingredients[i].crafted_by is None);
        lemma_pass_available(book, ingredients, i + 1, j, fuel);
    }
}

/// The fulfillment of a recipe with an entry is decided by its ingredient checks.
proof fn lemma_fulfillment_starts(book: Seq<RecipeChecks>, recipe: RecipeKind, fuel: nat)
    requires
        recipe_position(book, recipe) is Some,
    ensures
        fulfillment(book, recipe, fuel) == fulfillment_from(book, ingredients_of(book, recipe), 0, fuel),
{
    lemma_position_found(book, recipe);
}

/// A recipe without checks is not decided.
pub proof fn lemma_unchecked_recipe_undecided(book: Seq<RecipeChecks>, recipe: RecipeKind, fuel: nat)
    requires
        forall|p: int| 0 <= p < book.len() ==> (#[trigger] book[p]).recipe != recipe,
    ensures
        fulfillment(book, recipe, fuel) is None,
{
    lemma_position_exists(book, recipe);
}

/// A short stored ingredient leaves its recipe unfulfilled when every ingredient
/// before it is stored, within capacity and available, and it is itself within
/// capacity.
pub proof fn lemma_short_ingredient_unfulfills(
    book: Seq<RecipeChecks>,
    recipe: RecipeKind,
    fuel: nat,
    j: int,
)
    requires
        recipe_position(book, recipe) is Some,
        0 <= j < ingredients_of(book, recipe).len(),
        available_before(ingredients_of(book, recipe), j),
        ingredients_of(book, recipe)[j].crafted_by is None,
        !ingredients_of(book, recipe)[j].over_capacity,
        ingredients_of(book, recipe)[j].insufficient,
    ensures
        fulfillment(book, recipe, fuel) == Some(FulfillmentState::Unfulfilled),
{
    lemma_fulfillment_starts(book, recipe, fuel);
    lemma_pass_available(book, ingredients_of(book, recipe), 0, j, fuel);
}

/// A stored ingredient over capacity caps its recipe when every ingredient before it
/// is stored, within capacity and available.
pub proof fn lemma_over_capacity_caps(book: Seq<RecipeChecks>, recipe: RecipeKind, fuel: nat, j: int)
    requires
        recipe_position(book, recipe) is Some,
        0 <= j < ingredients_of(book, recipe).len(),
        available_before(ingredients_of(book, recipe), j),
        ingredients_of(book, recipe)[j].crafted_by is None,
        ingredients_of(book, recipe)[j].over_capacity,
    ensures
        fulfillment(book, recipe, fuel) == Some(FulfillmentState::Capped),
{
    lemma_fulfillment_starts(book, recipe, fuel);
    lemma_pass_available(book, ingredients_of(book, recipe), 0, j, fuel);
}

/// A crafted ingredient after available ones hands the decision to the recipe that
/// crafts it, with one step less of lookahead; with no lookahead left the recipe is
/// not decided.
pub proof fn lemma_crafted_ingredient_decides(
    book: Seq<RecipeChecks>,
    recipe: RecipeKind,
    fuel: nat,
    j: int,
)
    requires
        recipe_position(book, recipe) is Some,
        0 <= j < ingredients_of(book, recipe).len(),
        available_before(ingredients_of(book, recipe), j),
        ingredients_of(book, recipe)[j].crafted_by is Some,
    ensures
        fuel == 0 ==> fulfillment(book, recipe, fuel) is None,
        fuel > 0 ==> fulfillment(book, recipe, fuel) == fulfillment(
            book,
            RecipeKind::Crafting(ingredients_of(book, recipe)[j].crafted_by->0),
            (fuel - 1) as nat,
        ),
{
    lemma_fulfillment_starts(book, recipe, fuel);
    lemma_pass_available(book, ingredients_of(book, recipe), 0, j, fuel);
}

/// A recipe whose ingredients are all stored, within capacity and available is
/// fulfilled.
pub proof fn lemma_all_available_fulfills(book: Seq<RecipeChecks>, recipe: RecipeKind, fuel: nat)
    requires
        recipe_position(book, recipe) is Some,
        available_before(ingredients_of(book, recipe), ingredients_of(book, recipe).len() as int),
    ensures
        fulfillment(book, recipe, fuel) == Some(FulfillmentState::Fulfilled),
{
    let ingredients = ingredients_of(book, recipe);
    lemma_fulfillment_starts(book, recipe, fuel);
    lemma_pass_available(book, ingredients, 0, ingredients.len() as int, fuel);
}

/// Whether something stays or becomes unlocked: it stays unlocked once unlocked, and
/// becomes unlocked when any of its ingredients reaches its unlocking amount.
pub fn unlocked_after(unlocked: bool, reached: &Vec<bool>) -> (r: bool)
    ensures
        r == (unlocked || exists|i: int| 0 <= i < reached@.len() && reached@[i]),
{
    if unlocked {
        return true;
    }
    let mut i: usize = 0;
    while i < reached.len()
        invariant
            i <= reached@.len(),
            forall|j: int| 0 <= j < i ==> !reached@[j],
        decreases reached@.len() - i,
    {
        if reached[i] {
            return true;
        }
        i = i + 1;
    }
    false
}

/// Ingredients that are all stored (none crafted), none over capacity and none short
/// leave a recipe fulfilled, however little lookahead there is.
pub proof fn lemma_available_ingredients_fulfill(
    book: Seq<RecipeChecks>,
    ingredients: Seq<IngredientCheck>,
    i: nat,
    fuel: nat,
)
    requires
        forall|j: int|
            i <= j < ingredients.len() ==> (#[trigger] ingredients[j]).crafted_by is None
                && !ingredients[j].over_capacity && !ingredients[j].insufficient,
    ensures
        fulfillment_from(book, ingredients, i, fuel) == Some(FulfillmentState::Fulfilled),
    decreases ingredients.len() - i,
{
    if i < ingredients.len() {
        lemma_available_ingredients_fulfill(book, ingredients, i + 1, fuel);
    }
}

/// Looking through more crafted resources never changes a fulfillment that was
/// already decided.
pub proof fn lemma_more_fuel_agrees(book: Seq<RecipeChecks>, recipe: RecipeKind, fuel: nat)
    requires
        fulfillment(book, recipe, fuel) is Some,
    ensures
        fulfillment(book, recipe, fuel + 1) == fulfillment(book, recipe, fuel),
    decreases fuel, 1nat, 0nat,
{
    match recipe_position(book, recipe) {
        None => {},
        Some(p) => {
            if 0 <= p < book.len() {
                lemma_more_fuel_agrees_from(book, book[p].ingredients@, 0, fuel);
            }
        },
    }
}

/// The same, for the ingredients from position `i` on.
pub proof fn lemma_more_fuel_agrees_from(
    book: Seq<RecipeChecks>,
    ingredients: Seq<IngredientCheck>,
    i: nat,
    fuel: nat,
)
    requires
        fulfillment_from(book, ingredients, i, fuel) is Some,
    ensures
        fulfillment_from(book, ingredients, i, fuel + 1) == fulfillment_from(book, ingredients, i, fuel),
    decreases fuel, 0nat, ingredients.len() - i,
{
    if i < ingredients.len() {
        let ingredient = ingredients[i as int];
        match ingredient.crafted_by {
            Some(crafting) => {
                if fuel > 0 {
                    lemma_more_fuel_agrees(book, RecipeKind::Crafting(crafting), (fuel - 1) as nat);
                }
            },
            None => {
                if !ingredient.over_capacity && !ingredient.insufficient {
                    lemma_more_fuel_agrees_from(book, ingredients, i + 1, fuel);
                }
            },
        }
    }
}

} // verus!
