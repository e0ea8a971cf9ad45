use vstd::prelude::*;

verus! {

/// The side of a node a port sits on.
#[derive(Debug, Clone, Copy, PartialEq, Eq, Hash, Structural)]
pub enum Side {
    In,
    Out,
}

impl Side {
    /// The opposite side.
    pub open spec fn spec_flip(self) -> Side {
        match self {
            Side::In => Side::Out,
            Side::Out => Side::In,
        }
    }

    #[inline]
    pub fn flip(self) -> (r: Self)
        ensures
            r == self.spec_flip(),
            r != self,
    {
        match self {
            Self::In => Self::Out,
            Self::Out => Self::In,
        }
    }
}

/// Flipping a side twice gives the side back.
pub proof fn lemma_flip_involutive(s: Side)
    ensures
        s.spec_flip().spec_flip() == s,
{
}

} // verus!

verus! {

/// A direction the cursor can step in.
#[derive(Debug, Clone, Copy, PartialEq, Eq, Hash, Structural)]
pub enum Step {
    Left,
    Down,
    Up,
    Right,
}

/// How a cursor cell follows a cursor move.
#[derive(Debug, Clone, Copy, PartialEq, Eq, Hash, Structural)]
pub enum AlignCell {
    Overwrite,
    KeepRow,
    KeepCol,
}

/// What the widget is asked to do after the cursor changed.
#[derive(Debug, Clone, Copy, PartialEq, Eq, Hash, Structural)]
pub enum CursorUpdate {
    Move,
    CenterInView,
}

/// A port of a node: the node and the port's index on its side.
#[derive(Debug, Clone, Copy, PartialEq, Eq, Hash)]
pub struct Port<N, P>(pub N, pub P);

/// A port together with the side of the node it is on.
#[derive(Debug, Clone, Copy, PartialEq, Eq, Hash)]
pub struct SidedPort<N, P>(pub Side, pub Port<N, P>);

} // verus!
