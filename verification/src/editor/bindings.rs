use vstd::prelude::*;

use super::actions::SimpleAction;
use super::operators::Operator;
use super::types::Side;
use crate::accept::AcceptState;

verus! {

/// What the create operator's keys mean.
#[derive(Debug, Clone, Copy, PartialEq, Eq, Structural)]
pub enum CreateOpAction {
    Accept,
    Side(Side),
}

/// What the create operator's acceptor gives for a key.
#[derive(Debug, Clone, Copy, PartialEq, Eq, Structural)]
pub enum CreateOut {
    Trap,
    Advance,
    CreateOpAction(CreateOpAction),
}

/// What the normal-mode acceptor gives for a key.
#[derive(Debug, Clone, Copy, PartialEq, Eq, Structural)]
pub enum ActionOut {
    Trap,
    Advance,
    Modifier,
    Action(SimpleAction),
    Operator(Operator),
}

impl AcceptState for CreateOut {
    open spec fn spec_trap() -> Self {
        CreateOut::Trap
    }

    open spec fn spec_advance() -> Self {
        CreateOut::Advance
    }

    fn trap() -> (r: Self) {
        CreateOut::Trap
    }

    fn advance() -> (r: Self) {
        CreateOut::Advance
    }
}

impl AcceptState for ActionOut {
    open spec fn spec_trap() -> Self {
        ActionOut::Trap
    }

    open spec fn spec_advance() -> Self {
        ActionOut::Advance
    }

    fn trap() -> (r: Self) {
        ActionOut::Trap
    }

    fn advance() -> (r: Self) {
        ActionOut::Advance
    }
}

impl From<Operator> for ActionOut {
    fn from(value: Operator) -> (r: Self) {
        Self::Operator(value)
    }
}

impl vstd::std_specs::convert::FromSpecImpl<Operator> for ActionOut {
    open spec fn obeys_from_spec() -> bool {
        true
    }

    open spec fn from_spec(v: Operator) -> ActionOut {
        ActionOut::Operator(v)
    }
}

impl From<SimpleAction> for ActionOut {
    fn from(value: SimpleAction) -> (r: Self) {
        Self::Action(value)
    }
}

impl vstd::std_specs::convert::FromSpecImpl<SimpleAction> for ActionOut {
    open spec fn obeys_from_spec() -> bool {
        true
    }

    open spec fn from_spec(v: SimpleAction) -> ActionOut {
        ActionOut::Action(v)
    }
}

impl From<CreateOpAction> for CreateOut {
    fn from(value: CreateOpAction) -> (r: Self) {
        Self::CreateOpAction(value)
    }
}

impl vstd::std_specs::convert::FromSpecImpl<CreateOpAction> for CreateOut {
    open spec fn obeys_from_spec() -> bool {
        true
    }

    open spec fn from_spec(v: CreateOpAction) -> CreateOut {
        CreateOut::CreateOpAction(v)
    }
}

/// An operator, from anything that converts into one.
pub fn op<T: Into<Operator>>(value: T) -> (r: Operator)
    ensures
        <T as vstd::std_specs::convert::IntoSpec<Operator>>::obeys_into_spec() ==> r == <T as vstd::std_specs::convert::IntoSpec<
            Operator,
        >>::into_spec(value),
{
    value.into()
}

} // verus!
