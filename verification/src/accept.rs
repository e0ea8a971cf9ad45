use vstd::prelude::*;

verus! {

/// An acceptor over inputs `T`: a state machine that takes one input at a
/// time and tells what it makes of it.
pub trait Acceptor<T> {
    type Output;

    /// The keys of the chord typed so far.
    fn pending_op(&self) -> &'static str;

    fn accept(&mut self, input: T) -> Self::Output;
}

/// The two outputs every acceptor output type has: the input was refused
/// (trap), or it was taken without producing anything yet (advance).
pub trait AcceptState: Sized {
    spec fn spec_trap() -> Self;

    spec fn spec_advance() -> Self;

    fn trap() -> (r: Self)
        ensures
            r == Self::spec_trap(),
    ;

    fn advance() -> (r: Self)
        ensures
            r == Self::spec_advance(),
    ;
}

impl<T> AcceptState for Option<T> {
    open spec fn spec_trap() -> Self {
        None
    }

    open spec fn spec_advance() -> Self {
        None
    }

    fn trap() -> (r: Self) {
        None
    }

    fn advance() -> (r: Self) {
        None
    }
}

/// An acceptor received an input it does not handle.
#[derive(Debug, Default, Clone, Copy, PartialEq, Eq, Structural)]
pub struct TrapError;

impl TrapError {
    /// The message the error reads as.
    pub fn message(&self) -> (r: &'static str)
        ensures
            r == "Acceptor received unhandled input",
    {
        "Acceptor received unhandled input"
    }
}

/// What an acceptor gives for one input: nothing yet, an output, or a trap.
pub type AcceptResult<T> = Result<Option<T>, TrapError>;

impl<T> AcceptState for Result<Option<T>, TrapError> {
    open spec fn spec_trap() -> Self {
        Err(TrapError)
    }

    open spec fn spec_advance() -> Self {
        Ok(None)
    }

    fn trap() -> (r: Self) {
        Err(TrapError)
    }

    fn advance() -> (r: Self) {
        Ok(None)
    }
}

} // verus!
