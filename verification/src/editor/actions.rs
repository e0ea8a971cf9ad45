use vstd::prelude::*;

use super::cursor::Cursor;
use super::mode::ModeKind;
use super::types::{Port, SidedPort, Step};

verus! {

/// Prepends a digit to the pending count.
#[derive(Debug, Clone, Copy, PartialEq, Eq, Hash, Structural)]
pub struct PushCount(pub char);

/// Repeats the last loud action.
#[derive(Debug, Clone, Copy, PartialEq, Eq, Hash, Structural)]
pub struct Repeat;

/// Switches to a mode.
#[derive(Debug, Clone, Copy, PartialEq, Eq, Hash, Structural)]
pub struct SetMode(pub ModeKind);

/// Toggles the debug view.
#[derive(Debug, Clone, Copy, PartialEq, Eq, Hash, Structural)]
pub struct ToggleDebug;

/// Moves the cursor to the other end of what it is on.
#[derive(Debug, Clone, Copy, PartialEq, Eq, Hash, Structural)]
pub struct GoToOpposite;

/// Steps the cursor.
#[derive(Debug, Clone, Copy, PartialEq, Eq, Hash, Structural)]
pub struct StepCursor(pub Step);

/// Centers the view on the cursor.
#[derive(Debug, Clone, Copy, PartialEq, Eq, Hash, Structural)]
pub struct ViewCursor;

/// Deletes what the cursor is on.
#[derive(Debug, Clone, Copy, PartialEq, Eq, Hash, Structural)]
pub struct DeleteAtCursor;

/// Quits the editor.
#[derive(Debug, Clone, Copy, PartialEq, Eq, Hash, Structural)]
pub struct Quit;

/// Moves the node under the cursor.
#[derive(Debug, Clone, Copy, PartialEq, Eq, Hash, Structural)]
pub struct Nudge(pub Step);

/// Does nothing but keep the count.
#[derive(Debug, Clone, Copy, PartialEq, Eq, Hash, Structural)]
pub struct Nop;

/// Stands for a key that nothing handles.
#[derive(Debug, Clone, Copy, PartialEq, Eq, Hash, Structural)]
pub struct Unhandled;

/// The actions that do not depend on the widget's types.
#[derive(Debug, Clone, Copy, PartialEq, Eq, Hash, Structural)]
pub enum SimpleAction {
    PushCount(PushCount),
    Repeat(Repeat),
    SetMode(SetMode),
    ToggleDebug(ToggleDebug),
    GoToOpposite(GoToOpposite),
    StepCursor(StepCursor),
    ViewCursor(ViewCursor),
    DeleteAtCursor(DeleteAtCursor),
    Quit(Quit),
}

/// Creates an edge from the first port to the second.
#[derive(Debug, Clone, Copy, PartialEq, Eq, Hash)]
pub struct CreateEdge<N, P>(pub Port<N, P>, pub Port<N, P>);

/// Creates a node of the kind at the point.
#[derive(Debug, Clone, Copy, PartialEq, Eq, Hash)]
pub struct CreateNode<K, Pt>(pub K, pub Pt);

/// Puts the cursor on the port.
#[derive(Debug, Clone, Copy, PartialEq, Eq, Hash)]
pub struct GoToPort<N, P>(pub SidedPort<N, P>);

/// Every action the editor runs, over node ids `N`, port ids `P`, node kinds
/// `K` and points `Pt`.
#[derive(Debug, Clone, Copy, PartialEq, Eq, Hash)]
pub enum Action<N, P, K, Pt> {
    SimpleAction(SimpleAction),
    CreateEdge(CreateEdge<N, P>),
    CreateNode(CreateNode<K, Pt>),
    GoToPort(GoToPort<N, P>),
}

/// What kind of action an action is.
#[derive(Debug, Clone, Copy, PartialEq, Eq, Hash, Structural)]
pub enum ActionKind {
    CreateEdge,
    CreateNode,
    DeleteAtCursor,
    GoToOpposite,
    GoToPort,
    ModeNormal,
    PushCount,
    Quit,
    Repeat,
    StepDown,
    StepLeft,
    StepRight,
    StepUp,
    ToggleDebug,
    ViewCursor,
}

impl ActionKind {
    pub open spec fn spec_name(self) -> &'static str {
        match self {
            Self::CreateEdge => "create edge",
            Self::CreateNode => "create node",
            Self::DeleteAtCursor => "delete at cursor",
            Self::GoToOpposite => "go to opposite",
            Self::GoToPort => "go to port",
            Self::ModeNormal => "normal mode",
            Self::PushCount => "push count",
            Self::Quit => "quit",
            Self::Repeat => "repeat",
            Self::StepDown => "step down",
            Self::StepLeft => "step left",
            Self::StepRight => "step right",
            Self::StepUp => "step up",
            Self::ToggleDebug => "toggle debug",
            Self::ViewCursor => "view cursor",
        }
    }

    pub open spec fn spec_is_silent(self) -> bool {
        matches!(self, Self::PushCount | Self::StepDown | Self::StepLeft | Self::StepRight | Self::StepUp)
    }

    #[inline]
    pub fn name(self) -> (r: &'static str)
        ensures
            r == self.spec_name(),
    {
        match self {
            Self::CreateEdge => "create edge",
            Self::CreateNode => "create node",
            Self::DeleteAtCursor => "delete at cursor",
            Self::GoToOpposite => "go to opposite",
            Self::GoToPort => "go to port",
            Self::ModeNormal => "normal mode",
            Self::PushCount => "push count",
            Self::Quit => "quit",
            Self::Repeat => "repeat",
            Self::StepDown => "step down",
            Self::StepLeft => "step left",
            Self::StepRight => "step right",
            Self::StepUp => "step up",
            Self::ToggleDebug => "toggle debug",
            Self::ViewCursor => "view cursor",
        }
    }

    /// Silent actions do not show up as the last chord nor as the action to
    /// repeat.
    #[inline]
    pub fn is_silent(self) -> (r: bool)
        ensures
            r == self.spec_is_silent(),
    {
        matches!(self, Self::PushCount | Self::StepDown | Self::StepLeft | Self::StepRight | Self::StepUp)
    }
}

impl SimpleAction {
    pub open spec fn spec_kind(self) -> ActionKind {
        match self {
            Self::PushCount(_) => ActionKind::PushCount,
            Self::Repeat(_) => ActionKind::Repeat,
            Self::SetMode(SetMode(ModeKind::Normal)) => ActionKind::ModeNormal,
            Self::ToggleDebug(_) => ActionKind::ToggleDebug,
            Self::GoToOpposite(_) => ActionKind::GoToOpposite,
            Self::StepCursor(StepCursor(s)) => match s {
                Step::Left => ActionKind::StepLeft,
                Step::Down => ActionKind::StepDown,
                Step::Up => ActionKind::StepUp,
                Step::Right => ActionKind::StepRight,
            },
            Self::ViewCursor(_) => ActionKind::ViewCursor,
            Self::DeleteAtCursor(_) => ActionKind::DeleteAtCursor,
            Self::Quit(_) => ActionKind::Quit,
        }
    }

    pub fn kind(&self) -> (r: ActionKind)
        ensures
            r == self.spec_kind(),
    {
        match self {
            Self::PushCount(_) => ActionKind::PushCount,
            Self::Repeat(_) => ActionKind::Repeat,
            Self::SetMode(SetMode(ModeKind::Normal)) => ActionKind::ModeNormal,
            Self::ToggleDebug(_) => ActionKind::ToggleDebug,
            Self::GoToOpposite(_) => ActionKind::GoToOpposite,
            Self::StepCursor(StepCursor(s)) => match s {
                Step::Left => ActionKind::StepLeft,
                Step::Down => ActionKind::StepDown,
                Step::Up => ActionKind::StepUp,
                Step::Right => ActionKind::StepRight,
            },
            Self::ViewCursor(_) => ActionKind::ViewCursor,
            Self::DeleteAtCursor(_) => ActionKind::DeleteAtCursor,
            Self::Quit(_) => ActionKind::Quit,
        }
    }
}

impl<N, P, K, Pt> Action<N, P, K, Pt> {
    pub open spec fn spec_kind(self) -> ActionKind {
        match self {
            Self::SimpleAction(a) => a.spec_kind(),
            Self::CreateEdge(..) => ActionKind::CreateEdge,
            Self::CreateNode(..) => ActionKind::CreateNode,
            Self::GoToPort(..) => ActionKind::GoToPort,
        }
    }

    pub fn kind(&self) -> (r: ActionKind)
        ensures
            r == self.spec_kind(),
    {
        match self {
            Self::SimpleAction(a) => a.kind(),
            Self::CreateEdge(..) => ActionKind::CreateEdge,
            Self::CreateNode(..) => ActionKind::CreateNode,
            Self::GoToPort(..) => ActionKind::GoToPort,
        }
    }
}

/// The count a digit key leaves pending: the old count (none counting as
/// zero) times ten plus the digit, or none when that is zero or does not fit.
pub open spec fn spec_push_count(count: Option<u32>, digit: char) -> Option<u32> {
    let v = match count {
        Some(c) => c as int,
        None => 0,
    } * 10 + (digit as int - '0' as int);
    if 0 < v <= u32::MAX {
        Some(v as u32)
    } else {
        None
    }
}

impl PushCount {
    /// The count pending after this digit key.
    pub fn process_count(self, count: Option<u32>) -> (r: Option<u32>)
        requires
            '0' <= self.0,
        ensures
            r == spec_push_count(count, self.0),
    {
        let PushCount(digit) = self;
        let digit = (digit as u32) - ('0' as u32);
        let base: u32 = match count {
            Some(c) => c,
            None => 0,
        };
        match base.checked_mul(10) {
            Some(c) => match c.checked_add(digit) {
                Some(v) => if v != 0 {
                    Some(v)
                } else {
                    None
                },
                None => None,
            },
            None => None,
        }
    }
}

/// A given count, or one.
pub open spec fn count_or_one(count: Option<u32>) -> u32 {
    match count {
        Some(c) => c,
        None => 1,
    }
}

/// Step `i` of a trace of calls hands the next call what is left of the
/// count: it used some but not all of what it was given.
pub open spec fn passes_on(tr: Seq<(u32, Option<u32>)>, i: int) -> bool {
    tr[i].1 matches Some(d) && d < tr[i].0 && tr[i + 1].0 == tr[i].0 - d
}

/// `tr` is the calls of `f` that running a count of `start` makes, each
/// with what it was given and what it gave back: the first call is given
/// `start`; each call that used part of what it was given is followed by
/// one given the rest; the last call gave up, or used all it was given.
pub open spec fn count_trace<F: FnMut(u32) -> Option<u32>>(f: F, start: u32, tr: Seq<(u32, Option<u32>)>) -> bool {
    &&& tr.len() > 0
    &&& tr[0].0 == start
    &&& forall|i: int| 0 <= i < tr.len() ==> call_ensures(f, (#[trigger] tr[i].0,), tr[i].1)
    &&& forall|i: int| 0 <= i < tr.len() - 1 ==> #[trigger] passes_on(tr, i)
    &&& tr.last().1 is None || tr.last().1 == Some(tr.last().0)
}

/// Runs `f` on the remaining count (one when none is given) until it gives
/// up or the count is used up; each call tells how much of the count it
/// used (see [`count_trace`]). Tells whether any call did something, which
/// is whether the first call did.
pub fn run_with_count<F: FnMut(u32) -> Option<u32>>(count: Option<u32>, mut f: F) -> (any: bool)
    requires
        count matches Some(c) ==> c > 0,
        forall|n: u32| 0 < n ==> call_requires(f, (n,)),
        forall|n: u32, r: Option<u32>|
            0 < n && call_ensures(f, (n,), r) ==> (r matches Some(d) ==> 0 < d <= n),
    ensures
        exists|tr: Seq<(u32, Option<u32>)>|
            #[trigger] count_trace(f, count_or_one(count), tr) && any == tr[0].1 is Some,
{
    let start: u32 = match count {
        Some(c) => c,
        None => 1,
    };
    assert(start == count_or_one(count));
    let mut count = start;
    let mut any = false;
    let mut stopped = false;
    let ghost mut tr: Seq<(u32, Option<u32>)> = Seq::empty();
    let ghost f0 = f;
    while count != 0 && !stopped
        invariant
            f == f0,
            forall|n: u32| 0 < n ==> call_requires(f, (n,)),
            forall|n: u32, r: Option<u32>|
                0 < n && call_ensures(f, (n,), r) ==> (r matches Some(d) ==> 0 < d <= n),
            0 < start,
            tr.len() == 0 ==> count == start && !any && !stopped,
            tr.len() > 0 ==> tr[0].0 == start && any == tr[0].1 is Some,
            forall|i: int| 0 <= i < tr.len() ==> call_ensures(f, (#[trigger] tr[i].0,), tr[i].1),
            forall|i: int| 0 <= i < tr.len() - 1 ==> #[trigger] passes_on(tr, i),
            tr.len() > 0 ==> 0 < tr.last().0,
            tr.len() > 0 ==> (stopped <==> tr.last().1 is None),
            tr.len() > 0 ==> (tr.last().1 matches Some(d) ==> d <= tr.last().0 && count == tr.last().0 - d),
        decreases count, if stopped {
            0int
        } else {
            1int
        },
    {
        let dec = f(count);
        let ghost prev = tr;
        proof {
            tr = tr.push((count, dec));
            if prev.len() > 0 {
                assert(tr[0] == prev[0]);
                assert(prev.last().1 is Some);
                if prev.len() > 1 {
                    assert(passes_on(prev, 0));
                }
            }
            assert forall|i: int| 0 <= i < tr.len() - 1 implies #[trigger] passes_on(tr, i) by {
                if i < prev.len() - 1 {
                    assert(passes_on(prev, i));
                    assert(tr[i] == prev[i] && tr[i + 1] == prev[i + 1]);
                } else {
                    assert(i == prev.len() - 1);
                    assert(tr[i] == prev.last());
                }
            }
            assert forall|i: int| 0 <= i < tr.len() implies call_ensures(f, (#[trigger] tr[i].0,), tr[i].1) by {
                if i < prev.len() {
                    assert(tr[i] == prev[i]);
                }
            }
        }
        match dec {
            None => {
                stopped = true;
            },
            Some(d) => {
                any = true;
                count = count - d;
            },
        }
    }
    proof {
        assert(count_trace(f, start, tr));
    }
    any
}

/// Names tell action kinds apart: two different kinds never have the same
/// name, and no name is empty.
pub proof fn lemma_names_identify_kinds(a: ActionKind, b: ActionKind)
    ensures
        a != b ==> a.spec_name()@ != b.spec_name()@,
        a.spec_name()@.len() > 0,
{
    reveal_strlit("create edge");
    reveal_strlit("create node");
    reveal_strlit("delete at cursor");
    reveal_strlit("go to opposite");
    reveal_strlit("go to port");
    reveal_strlit("normal mode");
    reveal_strlit("push count");
    reveal_strlit("quit");
    reveal_strlit("repeat");
    reveal_strlit("step down");
    reveal_strlit("step left");
    reveal_strlit("step right");
    reveal_strlit("step up");
    reveal_strlit("toggle debug");
    reveal_strlit("view cursor");
    if a != b && a.spec_name()@ == b.spec_name()@ {
        let x = a.spec_name()@;
        let y = b.spec_name()@;
        assert(x.len() == y.len() && x[0] == y[0]);
        if x.len() > 7 {
            assert(x[5] == y[5] && x[7] == y[7]);
        }
    }
}

/// Exactly the count keys and the four steps are silent: every other
/// action kind, deleting and creating included, is loud.
pub proof fn lemma_silent_kinds(k: ActionKind)
    ensures
        k.spec_is_silent() <==> (k == ActionKind::PushCount || k == ActionKind::StepDown || k == ActionKind::StepLeft
            || k == ActionKind::StepRight || k == ActionKind::StepUp),
{
}

} // verus!
