use vstd::prelude::*;

use super::types::{Port, SidedPort};

verus! {

/// What starting a jump among targets comes to.
pub enum JumpResult<T> {
    /// There was nothing to jump to.
    Abort,
    /// There was exactly one target.
    Accept(T),
    /// There are several targets to choose from.
    Jump(JumpState<T>),
}

/// Something a jump can land on.
pub trait JumpTarget {

}

/// A jump in progress: the chord typed so far and the targets.
#[derive(Debug)]
pub struct JumpState<T>(pub String, pub Vec<T>);

/// What a jump label is drawn on.
#[derive(Debug, Clone, Copy, PartialEq, Eq, Hash)]
pub enum JumpAdornerTarget<N, P> {
    Node(N),
    Port(P),
    Edge(Port<N, P>, Port<N, P>),
}

/// A jump label drawn on a node, a port or an edge.
#[derive(Debug, Clone, Copy, PartialEq, Eq, Hash)]
pub struct JumpAdorner<N, P> {
    pub target: JumpAdornerTarget<N, P>,
}

/// A running jump to a port.
#[derive(Debug)]
pub struct JumpToPortStarted<N, P>(pub JumpState<SidedPort<N, P>>);

/// What a jump gives for a key.
pub enum JumpOut<T> {
    Trap,
    Advance,
    Accept(T),
}

impl<T> JumpState<T> {
    /// Starts a jump: no target aborts, a single target is taken at once,
    /// several make the user choose.
    pub fn start(pending: String, targets: Vec<T>) -> (r: JumpResult<T>)
        ensures
            targets@.len() == 0 ==> r is Abort,
            targets@.len() == 1 ==> r == JumpResult::Accept(targets@[0]),
            targets@.len() >= 2 ==> r == JumpResult::Jump(JumpState(pending, targets)),
    {
        if targets.len() < 2 {
            let mut targets = targets;
            match targets.pop() {
                Some(t) => JumpResult::Accept(t),
                None => JumpResult::Abort,
            }
        } else {
            JumpResult::Jump(JumpState(pending, targets))
        }
    }
}

} // verus!
