use vstd::prelude::*;

use super::ids::StateId;

verus! {

/// What a state does on an input: the state it moves to, and whether it
/// yields an output on the way.
#[derive(Debug)]
pub struct Delta<Output> {
    pub next: StateId,
    pub kind: DeltaKind<Output>,
}

/// Whether a transition yields an output.
#[derive(Debug)]
pub enum DeltaKind<Output> {
    Yield(Output),
    Continue,
}

/// A state of a sparse table: a transition for each listed input (each
/// input listed once), one for every other input, and the state's extra.
#[derive(Debug)]
pub struct SparseState<Input, Output, StateExtra> {
    pub delta: Vec<(Input, Delta<Output>)>,
    pub default_delta: Delta<Output>,
    pub extra: StateExtra,
}

/// A deterministic automaton over inputs: its states, indexed by state id,
/// starting in the first.
#[derive(Debug)]
pub struct SparseTable<Input, Output, StateExtra>(pub Vec<SparseState<Input, Output, StateExtra>>);

impl<Input, Output, StateExtra> SparseTable<Input, Output, StateExtra> {
    /// Every state with its id, in order.
    pub fn states(&self) -> (r: Vec<(StateId, &SparseState<Input, Output, StateExtra>)>)
        requires
            self.0@.len() <= u32::MAX as int + 1,
        ensures
            r@.len() == self.0@.len(),
            forall|i: int|
                #![trigger r@[i]]
                0 <= i < r@.len() ==> r@[i].0.0 == i && *r@[i].1 == self.0@[i],
    {
        let mut r: Vec<(StateId, &SparseState<Input, Output, StateExtra>)> = Vec::new();
        let mut i: usize = 0;
        while i < self.0.len()
            invariant
                i <= self.0@.len(),
                self.0@.len() <= u32::MAX as int + 1,
                r@.len() == i,
                forall|k: int|
                    #![trigger r@[k]]
                    0 <= k < r@.len() ==> r@[k].0.0 == k && *r@[k].1 == self.0@[k],
            decreases self.0@.len() - i,
        {
            r.push((StateId(i as u32), &self.0[i]));
            i = i + 1;
        }
        r
    }

    /// The state with the given id, if there is one.
    #[inline]
    pub fn state(&self, id: StateId) -> (r: Option<&SparseState<Input, Output, StateExtra>>)
        ensures
            r is Some <==> id.0 < self.0@.len(),
            r matches Some(s) ==> *s == self.0@[id.0 as int],
    {
        let i = id.0 as usize;
        if i < self.0.len() {
            Some(&self.0[i])
        } else {
            None
        }
    }
}

impl<Input, Output, StateExtra> SparseState<Input, Output, StateExtra> {
    #[inline]
    pub fn delta(&self) -> (r: &Vec<(Input, Delta<Output>)>)
        ensures
            *r == self.delta,
    {
        &self.delta
    }

    #[inline]
    pub fn default_delta(&self) -> (r: &Delta<Output>)
        ensures
            *r == self.default_delta,
    {
        &self.default_delta
    }

    #[inline]
    pub fn extra(&self) -> (r: &StateExtra)
        ensures
            *r == self.extra,
    {
        &self.extra
    }
}

} // verus!
