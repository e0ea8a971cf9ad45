use vstd::prelude::*;

verus! {

/// Index of a token definition in a tree map.
#[derive(Debug, Clone, Copy, PartialEq, Eq, Hash, Structural)]
pub struct TokenId(pub u32);

impl TokenId {
    #[inline]
    pub fn as_u32(self) -> (r: u32)
        ensures
            r == self.0,
    {
        self.0
    }
}

/// Index of a root (a named grammar) in a tree map.
#[derive(Debug, Clone, Copy, PartialEq, Eq, Hash, Structural)]
pub struct RootId(pub u32);

/// Identifier of a branch label, shared by all roots that use the same name.
#[derive(Debug, Clone, Copy, PartialEq, Eq, Hash, Structural)]
pub struct LabelId(pub u32);

/// Index of a state in a sparse state table.
#[derive(Debug, Clone, Copy, PartialEq, Eq, Hash, Structural)]
pub struct StateId(pub u32);

impl StateId {
    /// The state a table starts in.
    pub fn start() -> (r: StateId)
        ensures
            r.0 == 0,
    {
        StateId(0)
    }

    #[inline]
    pub fn as_u32(self) -> (r: u32)
        ensures
            r == self.0,
    {
        self.0
    }
}

/// The token id of the token stored at index `idx`.
pub fn token_id(idx: usize) -> (r: TokenId)
    requires
        idx <= u32::MAX,
    ensures
        r.0 == idx,
{
    TokenId(idx as u32)
}

/// The root id of the root stored at index `idx`.
pub fn root_id(idx: usize) -> (r: RootId)
    requires
        idx <= u32::MAX,
    ensures
        r.0 == idx,
{
    RootId(idx as u32)
}

/// The label id handed to the `idx`-th distinct label name.
pub fn label_id(idx: usize) -> (r: LabelId)
    requires
        idx <= u32::MAX,
    ensures
        r.0 == idx,
{
    LabelId(idx as u32)
}

/// The state id of the state stored at index `idx`.
pub fn state_id(idx: usize) -> (r: StateId)
    requires
        idx <= u32::MAX,
    ensures
        r.0 == idx,
{
    StateId(idx as u32)
}

} // verus!
