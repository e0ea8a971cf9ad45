use vstd::prelude::*;

verus! {

/// The state of the normal-mode key acceptor.
#[derive(Debug, Clone, Copy, PartialEq, Eq, Hash, Structural)]
pub struct NormalAccept {
    pub state: u32,
}

impl Default for NormalAccept {
    fn default() -> (r: Self)
        ensures
            r.state == 0,
    {
        NormalAccept { state: 0 }
    }
}

/// An editing mode, with the state of its key acceptor.
#[derive(Debug, Clone, Copy, PartialEq, Eq, Structural)]
pub enum Mode {
    Normal(NormalAccept),
}

/// Which editing mode, without state.
#[derive(Debug, Clone, Copy, PartialEq, Eq, Hash, Structural)]
pub enum ModeKind {
    Normal,
}

impl Default for ModeKind {
    fn default() -> (r: Self)
        ensures
            r == ModeKind::Normal,
    {
        ModeKind::Normal
    }
}

impl Mode {
    /// The mode a session starts in: normal mode with a fresh acceptor.
    pub open spec fn spec_default() -> Mode {
        Mode::Normal(NormalAccept { state: 0 })
    }

    pub open spec fn spec_kind(self) -> ModeKind {
        match self {
            Mode::Normal(_) => ModeKind::Normal,
        }
    }

    /// Switches to the mode `to` with a fresh acceptor, unless already in
    /// it; tells whether the mode changed.
    pub fn change(&mut self, to: ModeKind) -> (r: bool)
        ensures
            r == (old(self).spec_kind() != to),
            r ==> *final(self) == (match to {
                ModeKind::Normal => Mode::spec_default(),
            }),
            !r ==> *final(self) == *old(self),
    {
        if self.kind() == to {
            return false;
        }
        *self = match to {
            ModeKind::Normal => Self::Normal(NormalAccept::default()),
        };
        true
    }

    #[inline]
    pub fn kind(self) -> (r: ModeKind)
        ensures
            r == self.spec_kind(),
    {
        match self {
            Self::Normal(_) => ModeKind::Normal,
        }
    }
}

impl Default for Mode {
    fn default() -> (r: Self)
        ensures
            r == Mode::spec_default(),
    {
        Self::Normal(NormalAccept::default())
    }
}

impl From<Mode> for ModeKind {
    fn from(value: Mode) -> (r: Self) {
        value.kind()
    }
}

impl vstd::std_specs::convert::FromSpecImpl<Mode> for ModeKind {
    open spec fn obeys_from_spec() -> bool {
        true
    }

    open spec fn from_spec(v: Mode) -> ModeKind {
        v.spec_kind()
    }
}

} // verus!
