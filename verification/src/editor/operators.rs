use vstd::prelude::*;

use super::types::Side;

verus! {

/// Starts creating a node or an edge.
#[derive(Debug, Clone, Copy, PartialEq, Eq, Hash, Structural)]
pub struct Create;

/// Jumps to a port, on the current node or anywhere.
#[derive(Debug, Clone, Copy, PartialEq, Eq, Hash, Structural)]
pub enum JumpToPort {
    CurrentNode(Side),
    Global(Side),
}

/// An operator: an action that takes further keys before it completes.
#[derive(Debug, Clone, Copy, PartialEq, Eq, Hash, Structural)]
pub enum Operator {
    Create(Create),
    JumpToPort(JumpToPort),
}

/// What kind of operator is running.
#[derive(Debug, Clone, Copy, PartialEq, Eq, Hash, Structural)]
pub enum OperatorKind {
    Create,
    JumpToPort,
}

impl OperatorKind {
    pub open spec fn spec_name(self) -> &'static str {
        match self {
            Self::Create => "create",
            Self::JumpToPort => "jump to port",
        }
    }

    pub fn name(self) -> (r: &'static str)
        ensures
            r == self.spec_name(),
    {
        match self {
            Self::Create => "create",
            Self::JumpToPort => "jump to port",
        }
    }
}

impl Operator {
    pub open spec fn spec_kind(self) -> OperatorKind {
        match self {
            Operator::Create(_) => OperatorKind::Create,
            Operator::JumpToPort(_) => OperatorKind::JumpToPort,
        }
    }

    pub fn kind(&self) -> (r: OperatorKind)
        ensures
            r == self.spec_kind(),
    {
        match self {
            Operator::Create(_) => OperatorKind::Create,
            Operator::JumpToPort(_) => OperatorKind::JumpToPort,
        }
    }
}

impl From<Create> for Operator {
    fn from(value: Create) -> (r: Self) {
        Operator::Create(value)
    }
}

impl vstd::std_specs::convert::FromSpecImpl<Create> for Operator {
    open spec fn obeys_from_spec() -> bool {
        true
    }

    open spec fn from_spec(v: Create) -> Self {
        Operator::Create(v)
    }
}

impl From<JumpToPort> for Operator {
    fn from(value: JumpToPort) -> (r: Self) {
        Operator::JumpToPort(value)
    }
}

impl vstd::std_specs::convert::FromSpecImpl<JumpToPort> for Operator {
    open spec fn obeys_from_spec() -> bool {
        true
    }

    open spec fn from_spec(v: JumpToPort) -> Self {
        Operator::JumpToPort(v)
    }
}

/// Why an operator did not start.
#[derive(Debug)]
pub struct StartError(());

impl StartError {
    pub fn new() -> StartError {
        StartError(())
    }

    /// The message the error reads as.
    pub fn message(&self) -> (r: &'static str)
        ensures
            r == "Operator did not start",
    {
        "Operator did not start"
    }
}

/// How an operator goes on after a key.
#[derive(Debug, Clone, Copy, PartialEq, Eq, Structural)]
pub enum OperatorFlow {
    Continue,
    Finish,
    Abort,
}

/// The running operator, with the chord that started it, above a stack of
/// operators it interrupted.
pub struct CurrentOperator<S> {
    pub current: Option<(String, S)>,
}

impl<S> CurrentOperator<S> {
    /// No operator runs while interrupted ones wait.
    pub open spec fn wf(self, stashed: Seq<(String, S)>) -> bool {
        self.current is None ==> stashed.len() == 0
    }

    pub fn new() -> (r: Self)
        ensures
            r.current is None,
    {
        CurrentOperator { current: None }
    }

    pub fn status(&self) -> (r: Option<(&String, &S)>)
        ensures
            r is Some <==> self.current is Some,
            r matches Some((c, o)) ==> self.current == Some((*c, *o)),
    {
        match &self.current {
            Some((c, o)) => Some((c, o)),
            None => None,
        }
    }

    pub fn as_ref(&self) -> (r: Option<&S>)
        ensures
            r is Some <==> self.current is Some,
            r matches Some(o) ==> (self.current->0).1 == *o,
    {
        match &self.current {
            Some((_, o)) => Some(o),
            None => None,
        }
    }

    /// Makes `operator` the running one, stashing the one it interrupts.
    pub fn push(&mut self, operator: S, chord: String, stashed: &mut Vec<(String, S)>)
        requires
            old(self).wf(old(stashed)@),
        ensures
            final(self).current == Some((chord, operator)),
            old(self).current matches Some(o) ==> final(stashed)@ == old(stashed)@.push(o),
            old(self).current is None ==> final(stashed)@ == old(stashed)@,
            final(self).wf(final(stashed)@),
    {
        let prev = self.current.take();
        match prev {
            None => {},
            Some(o) => {
                stashed.push(o);
            },
        }
        self.current = Some((chord, operator));
    }

    /// Ends the running operator and resumes the last one it interrupted.
    pub fn pop(&mut self, stashed: &mut Vec<(String, S)>) -> (r: Option<(String, S)>)
        requires
            old(self).wf(old(stashed)@),
        ensures
            r == old(self).current,
            old(self).current is None ==> final(self).current is None && final(stashed)@ == old(
                stashed,
            )@,
            old(self).current is Some && old(stashed)@.len() > 0 ==> final(self).current == Some(
                old(stashed)@.last(),
            ) && final(stashed)@ == old(stashed)@.drop_last(),
            old(self).current is Some && old(stashed)@.len() == 0 ==> final(self).current is None
                && final(stashed)@ == old(stashed)@,
            final(self).wf(final(stashed)@),
    {
        match self.current.take() {
            None => None,
            Some(o) => {
                self.current = stashed.pop();
                Some(o)
            },
        }
    }
}

/// Pushing an operator and popping it gives it back and restores the
/// operator it interrupted and the stash.
pub proof fn lemma_push_pop<S>(
    cur: Option<(String, S)>,
    stashed: Seq<(String, S)>,
    pushed: (String, S),
)
    requires
        cur is None ==> stashed.len() == 0,
    ensures
        ({
            let mid_stash = match cur {
                Some(o) => stashed.push(o),
                None => stashed,
            };
            let popped_cur = if mid_stash.len() > 0 {
                Some(mid_stash.last())
            } else {
                None
            };
            let popped_stash = if mid_stash.len() > 0 {
                mid_stash.drop_last()
            } else {
                mid_stash
            };
            &&& popped_cur == cur
            &&& popped_stash =~= stashed
        }),
{
}

/// The running operator and the stash after popping it.
pub open spec fn popped<S>(cur: Option<(String, S)>, stashed: Seq<(String, S)>) -> (Option<(String, S)>, Seq<(String, S)>) {
    if cur is Some && stashed.len() > 0 {
        (Some(stashed.last()), stashed.drop_last())
    } else {
        (None, stashed)
    }
}

/// Settles a key the running operator took: it goes on (the key was
/// handled), or it finished (handled) or aborted (not handled) and is
/// popped, resuming the operator it interrupted.
pub fn after_step<S>(current: &mut CurrentOperator<S>, stashed: &mut Vec<(String, S)>, flow: OperatorFlow) -> (r: bool)
    requires
        old(current).current is Some,
        old(current).wf(old(stashed)@),
    ensures
        r == (flow != OperatorFlow::Abort),
        final(current).wf(final(stashed)@),
        flow == OperatorFlow::Continue ==> final(current).current == old(current).current && final(stashed)@
            == old(stashed)@,
        flow != OperatorFlow::Continue ==> (final(current).current, final(stashed)@) == popped(
            old(current).current,
            old(stashed)@,
        ),
{
    match flow {
        OperatorFlow::Continue => true,
        OperatorFlow::Finish => {
            current.pop(stashed);
            true
        },
        OperatorFlow::Abort => {
            current.pop(stashed);
            false
        },
    }
}

/// Settles an operator that was started with `chord`: one that did not
/// start, or aborted at once, leaves the key unhandled; one that finished
/// at once is done; one that goes on becomes the running operator.
pub fn after_start<S>(
    current: &mut CurrentOperator<S>,
    stashed: &mut Vec<(String, S)>,
    chord: String,
    started: Result<S, StartError>,
    flow: OperatorFlow,
) -> (r: bool)
    requires
        old(current).wf(old(stashed)@),
    ensures
        r == (started is Ok && flow != OperatorFlow::Abort),
        final(current).wf(final(stashed)@),
        (started is Ok && flow == OperatorFlow::Continue) ==> final(current).current == Some((chord, started->Ok_0)) && (
        old(current).current matches Some(o) ==> final(stashed)@ == old(stashed)@.push(o)) && (old(current).current is None
            ==> final(stashed)@ == old(stashed)@),
        !(started is Ok && flow == OperatorFlow::Continue) ==> final(current).current == old(current).current
            && final(stashed)@ == old(stashed)@,
{
    match started {
        Err(_) => false,
        Ok(s) => match flow {
            OperatorFlow::Continue => {
                current.push(s, chord, stashed);
                true
            },
            OperatorFlow::Finish => true,
            OperatorFlow::Abort => false,
        },
    }
}

} // verus!
