use vstd::prelude::*;

verus! {

/// The stack of change sets that a simulation step builds while it tries work orders:
/// the bottom level holds the changes already agreed, and each work order under trial
/// adds a level that is kept when the order succeeds and dropped when it fails.
///
/// `L` is one level of changes.
pub struct DeltaSetStack<L> {
    stack: Vec<L>,
}

impl<L> DeltaSetStack<L> {
    /// The levels, bottom first.
    pub closed spec fn levels(self) -> Seq<L> {
        self.stack@
    }

    /// Well-formedness: there is always a bottom level.
    pub open spec fn wf(self) -> bool {
        self.levels().len() >= 1
    }

    /// A stack with one level, `bottom`.
    pub fn new(bottom: L) -> (r: Self)
        ensures
            r.levels() == seq![bottom],
            r.wf(),
    {
        let mut stack: Vec<L> = Vec::new();
        stack.push(bottom);
        DeltaSetStack { stack }
    }

    /// Opens a level for the next work order under trial.
    pub fn push_new(&mut self, level: L)
        ensures
            final(self).levels() == old(self).levels().push(level),
    {
        self.stack.push(level);
    }

    /// Drops the level of a failed work order; the bottom level is never dropped.
    pub fn roll_back(&mut self)
        requires
            old(self).levels().len() > 1,
        ensures
            final(self).levels() == old(self).levels().drop_last(),
            final(self).wf(),
    {
        let _ = self.stack.pop();
    }

    /// Keeps the level of a successful work order; only a level above the bottom can
    /// be kept.
    pub fn commit(&mut self)
        requires
            old(self).levels().len() > 1,
        ensures
            final(self).levels() == old(self).levels(),
    {
    }

    /// How many levels the stack holds.
    pub fn depth(&self) -> (r: usize)
        ensures
            r == self.levels().len(),
    {
        self.stack.len()
    }

    /// The levels, bottom first, to sum changes over.
    pub fn levels_ref(&self) -> (r: &Vec<L>)
        ensures
            r@ == self.levels(),
    {
        &self.stack
    }

    /// The level of the work order under trial (the bottom level when none is).
    pub fn top(&self) -> (r: &L)
        requires
            self.wf(),
        ensures
            *r == self.levels().last(),
    {
        let n = self.stack.len();
        &self.stack[n - 1]
    }

    /// The level of the work order under trial, to add changes to.
    pub fn top_mut(&mut self) -> (r: &mut L)
        requires
            old(self).wf(),
        ensures
            *r == old(self).levels().last(),
            final(self).levels() == old(self).levels().update(old(self).levels().len() - 1, *final(r)),
    {
        let n = self.stack.len();
        &mut self.stack[n - 1]
    }
}

/// Trying a work order and dropping it leaves the stack as it was.
pub proof fn lemma_roll_back_undoes_push<L>(
    before: DeltaSetStack<L>,
    pushed: DeltaSetStack<L>,
    rolled_back: DeltaSetStack<L>,
    level: L,
)
    requires
        pushed.levels() == before.levels().push(level),
        rolled_back.levels() == pushed.levels().drop_last(),
    ensures
        rolled_back.levels() == before.levels(),
{
    assert(before.levels().push(level).drop_last() =~= before.levels());
}

/// Trying a work order and keeping it leaves every earlier level untouched and the
/// order's level on top.
pub proof fn lemma_commit_keeps_earlier_levels<L>(
    before: DeltaSetStack<L>,
    pushed: DeltaSetStack<L>,
    committed: DeltaSetStack<L>,
    level: L,
)
    requires
        pushed.levels() == before.levels().push(level),
        committed.levels() == pushed.levels(),
    ensures
        committed.levels().len() == before.levels().len() + 1,
        committed.levels().last() == level,
        forall|i: int| 0 <= i < before.levels().len() ==> #[trigger] committed.levels()[i] == before.levels()[i],
{
}

} // verus!
