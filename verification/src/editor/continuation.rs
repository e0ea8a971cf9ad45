use vstd::prelude::*;

verus! {

/// Whether a continuation runs right away, handing back `I`, or later,
/// through `D`.
#[derive(Debug)]
pub enum Dispatch<I, D> {
    Immediate(I),
    Deferred(D),
}

} // verus!
