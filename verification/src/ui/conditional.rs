use vstd::prelude::*;

verus! {

/// The branch of a conditional view that is shown.
#[derive(Clone, Copy, Debug, PartialEq, Eq, Structural)]
pub enum Branch {
    /// The main branch.
    Main,
    /// The alternative at this position.
    ElseIf(usize),
    /// The fallback.
    Fallback,
    /// Nothing at all.
    Nothing,
}

/// The position of the first `true`, if any.
pub open spec fn first_true(conditions: Seq<bool>) -> Option<int>
    decreases conditions.len(),
{
    if conditions.len() == 0 {
        None
    } else if conditions[0] {
        Some(0)
    } else {
        match first_true(conditions.subrange(1, conditions.len() as int)) {
            Some(i) => Some(i + 1),
            None => None,
        }
    }
}

/// Which branch a conditional view shows: the main branch when its condition holds,
/// else the first alternative whose condition holds, else the fallback when there is
/// one, else nothing.
pub open spec fn selected_branch(main: bool, else_ifs: Seq<bool>, has_fallback: bool) -> Branch {
    if main {
        Branch::Main
    } else {
        match first_true(else_ifs) {
            Some(i) => Branch::ElseIf(i as usize),
            None => if has_fallback {
                Branch::Fallback
            } else {
                Branch::Nothing
            },
        }
    }
}

/// The position found by `first_true` holds `true`, and every position before it
/// holds `false`.
pub proof fn lemma_first_true(conditions: Seq<bool>)
    ensures
        first_true(conditions) matches Some(i) ==> 0 <= i < conditions.len() && conditions[i]
            && forall|j: int| 0 <= j < i ==> !conditions[j],
        first_true(conditions) is None ==> forall|j: int| 0 <= j < conditions.len() ==> !conditions[j],
    decreases conditions.len(),
{
    if conditions.len() > 0 {
        let rest = conditions.subrange(1, conditions.len() as int);
        lemma_first_true(rest);
        if !conditions[0] {
            assert forall|j: int| 1 <= j < conditions.len() implies conditions[j] == rest[j - 1] by {
            }
        }
    }
}

/// The main branch wins when its condition holds; otherwise the first alternative
/// whose condition holds is shown, whatever its position; when no condition holds,
/// the fallback, or nothing without one.
pub proof fn lemma_branch_choice(main: bool, else_ifs: Seq<bool>, has_fallback: bool)
    ensures
        main ==> selected_branch(main, else_ifs, has_fallback) == Branch::Main,
        forall|i: int|
            !main && 0 <= i < else_ifs.len() && #[trigger] else_ifs[i] && (forall|k: int|
                0 <= k < i ==> !else_ifs[k]) ==> selected_branch(main, else_ifs, has_fallback)
                == Branch::ElseIf(i as usize),
        !main && (forall|k: int| 0 <= k < else_ifs.len() ==> !else_ifs[k]) ==> selected_branch(
            main,
            else_ifs,
            has_fallback,
        ) == (if has_fallback {
            Branch::Fallback
        } else {
            Branch::Nothing
        }),
{
    lemma_first_true(else_ifs);
    assert forall|i: int|
        !main && 0 <= i < else_ifs.len() && #[trigger] else_ifs[i] && (forall|k: int|
            0 <= k < i ==> !else_ifs[k]) implies selected_branch(main, else_ifs, has_fallback)
        == Branch::ElseIf(i as usize) by {
        match first_true(else_ifs) {
            Some(f) => {
                if f < i {
                    assert(!else_ifs[f]);
                } else if f > i {
                    assert(!else_ifs[i]);
                }
            },
            None => {
                assert(!else_ifs[i]);
            },
        }
    }
}

/// Chooses the branch of a conditional view.
pub fn select_branch(main: bool, else_ifs: &Vec<bool>, has_fallback: bool) -> (r: Branch)
    ensures
        r == selected_branch(main, else_ifs@, has_fallback),
{
    if main {
        return Branch::Main;
    }
    let mut i: usize = 0;
    proof {
        assert(else_ifs@.subrange(0, else_ifs@.len() as int) =~= else_ifs@);
    }
    while i < else_ifs.len()
        invariant
            !main,
            i <= else_ifs@.len(),
            first_true(else_ifs@) == (match first_true(else_ifs@.subrange(i as int, else_ifs@.len() as int)) {
                Some(j) => Some(j + i),
                None => None,
            }),
        decreases else_ifs@.len() - i,
    {
        let ghost rest = else_ifs@.subrange(i as int, else_ifs@.len() as int);
        proof {
            assert(rest.subrange(1, rest.len() as int) =~= else_ifs@.subrange(i + 1, else_ifs@.len() as int));
        }
        if else_ifs[i] {
            proof {
                assert(rest[0]);
                assert(first_true(rest) == Some(0int));
                assert(first_true(else_ifs@) == Some(i as int));
                assert(selected_branch(main, else_ifs@, has_fallback) == Branch::ElseIf(i));
            }
            return Branch::ElseIf(i);
        }
        i = i + 1;
    }
    proof {
        assert(else_ifs@.subrange(i as int, else_ifs@.len() as int) =~= Seq::<bool>::empty());
    }
    if has_fallback {
        Branch::Fallback
    } else {
        Branch::Nothing
    }
}

} // verus!
