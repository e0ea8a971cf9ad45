use vstd::prelude::*;

use super::actions::{count_or_one, spec_push_count, Action, CreateEdge, CreateNode, GoToPort, SimpleAction};
use super::cursor::Cursor;
use super::bindings::ActionOut;
use super::driver::{accepted, finished, DriverInner, KeyStep};
use super::operators::{Operator, OperatorFlow, OperatorKind};
use super::status::OperatorState;
use super::create_op::{
    create_step, input_fits, jump_port_step, CreateEffect, CreatePhase, CreateInput, CreateResume, CreateStarted, JumpEffect,
};
use super::jump::{JumpOut, JumpToPortStarted};
use super::operators::{after_start, after_step, popped, CurrentOperator, StartError};
use super::types::SidedPort;
use super::driver::is_repeat;
use super::mode::{Mode, ModeKind};
use super::motion::{run_moves, CursorMove};
use super::process::{fixup_target, moved_off};
use super::euclidean::ids_compare;
use super::types::{AlignCell, CursorUpdate};
use super::widget::{CursorOps, GraphWidget, GraphWidgetTypes};

verus! {

/// What an action works on: the widget, the key-handling state, the cursor
/// and its cell.
pub type EditorState<W> = (
    W,
    DriverInner<
        <W as GraphWidgetTypes>::NodeId,
        <W as GraphWidgetTypes>::PortId,
        <W as GraphWidgetTypes>::NodeKind,
        <W as GraphWidgetTypes>::Point,
    >,
    Cursor<
        <W as GraphWidgetTypes>::NodeId,
        <W as GraphWidgetTypes>::PortId,
        <W as GraphWidgetTypes>::Point,
    >,
    <W as GraphWidgetTypes>::Cell,
);

/// Nothing but the key-handling state changed.
pub open spec fn only_driver<W: CursorOps>(s: EditorState<W>, t: EditorState<W>) -> bool {
    t.0 == s.0 && t.2 == s.2 && t.3 == s.3
}

/// The key-handling state did not change.
pub open spec fn driver_kept<W: CursorOps>(s: EditorState<W>, t: EditorState<W>) -> bool {
    t.1 == s.1
}

/// After a move of the cursor: where it ends and how the cell follows, and
/// the widget shown the move if any was made.
pub open spec fn moved<W: CursorOps>(mv: CursorMove<W::NodeId, W::PortId>, count: Option<u32>, s: EditorState<W>, t: EditorState<W>, r: bool) -> bool {
    let m = run_moves(s.0, mv, count_or_one(count), s.2, s.3);
    &&& r
    &&& t.2 == m.1
    &&& t.3 == m.2
    &&& t.0 == if m.0 {
        s.0.spec_update_cursor(CursorUpdate::Move, m.1)
    } else {
        s.0
    }
    &&& driver_kept(s, t)
}

/// What running an action that is not a repeat does, from state `s` to
/// state `t`, telling `r`: each action as its own function says.
pub open spec fn ran_once<W: GraphWidget>(
    action: Action<W::NodeId, W::PortId, W::NodeKind, W::Point>,
    count: Option<u32>,
    s: EditorState<W>,
    t: EditorState<W>,
    r: bool,
) -> bool {
    let (w, d, c, cell) = s;
    let (w2, d2, c2, cell2) = t;
    match action {
        Action::SimpleAction(a) => match a {
            SimpleAction::PushCount(p) => {
                &&& r
                &&& d2.count == spec_push_count(count, p.0)
                &&& d2.mode == d.mode && d2.debug == d.debug && d2.last_action == d.last_action && d2.last_op == d.last_op
                &&& only_driver(s, t)
            },
            SimpleAction::Repeat(_) => false,
            SimpleAction::SetMode(m) => {
                &&& r == (count is None && d.mode.spec_kind() != m.0)
                &&& d2.mode == if r {
                    match m.0 {
                        ModeKind::Normal => Mode::spec_default(),
                    }
                } else {
                    d.mode
                }
                &&& d2.count == d.count && d2.debug == d.debug && d2.last_action == d.last_action && d2.last_op == d.last_op
                &&& only_driver(s, t)
            },
            SimpleAction::ToggleDebug(_) => {
                &&& r == count is None
                &&& d2.debug == (if r {
                    !d.debug
                } else {
                    d.debug
                })
                &&& d2.count == d.count && d2.mode == d.mode && d2.last_action == d.last_action && d2.last_op == d.last_op
                &&& only_driver(s, t)
            },
            SimpleAction::GoToOpposite(_) => moved(CursorMove::Opposite, count, s, t, r),
            SimpleAction::StepCursor(st) => moved(CursorMove::Step(st.0), count, s, t, r),
            SimpleAction::ViewCursor(_) => {
                &&& r == count is None
                &&& w2 == if r {
                    w.spec_update_cursor(CursorUpdate::CenterInView, c)
                } else {
                    w
                }
                &&& c2 == c && cell2 == cell
                &&& driver_kept(s, t)
            },
            SimpleAction::DeleteAtCursor(_) => {
                let (w1, deleted) = if count is Some {
                    (w, false)
                } else {
                    match c {
                        Cursor::Node(n) => w.spec_delete_node(n),
                        Cursor::Edge(e) => w.spec_delete_edge(e.from, e.to),
                        _ => (w, false),
                    }
                };
                &&& r == deleted
                &&& !r ==> c2 == c && cell2 == cell && w2 == w1
                &&& r ==> cell2 == w1.spec_align(cell, c2, AlignCell::Overwrite)
                &&& r ==> w2 == w1.spec_update_cursor(CursorUpdate::Move, c2)
                &&& r ==> (c2 is Node || c2 is FixedPoint || (c is Edge && c2 is Edge))
                &&& r ==> moved_off(c, c2)
                &&& r && ids_compare::<W::NodeId, W::PortId>() ==> Some(c2) == fixup_target(w, c, cell)
                &&& driver_kept(s, t)
            },
            SimpleAction::Quit(_) => {
                &&& r == count is None
                &&& w2 == if r {
                    w.spec_quit()
                } else {
                    w
                }
                &&& c2 == c && cell2 == cell
                &&& driver_kept(s, t)
            },
        },
        Action::CreateEdge(CreateEdge(from, to)) => {
            &&& r == count is None
            &&& w2 == if r {
                w.spec_create_edge(from, to)
            } else {
                w
            }
            &&& c2 == c && cell2 == cell
            &&& driver_kept(s, t)
        },
        Action::CreateNode(CreateNode(kind, pos)) => {
            &&& r == count is None
            &&& r ==> exists|k: W::NodeKind| #[trigger] cloned(kind, k) && t.0 == s.0.spec_create_node(k, pos)
            &&& !r ==> w2 == w
            &&& c2 == c && cell2 == cell
            &&& driver_kept(s, t)
        },
        Action::GoToPort(GoToPort(p)) => {
            &&& r == count is None
            &&& count is Some ==> c2 == c && cell2 == cell && w2 == w
            &&& count is None ==> c2 == Cursor::<W::NodeId, W::PortId, W::Point>::Port(p) && cell2 == w.spec_align(
                cell,
                Cursor::Port(p),
                AlignCell::Overwrite,
            ) && w2 == w.spec_update_cursor(CursorUpdate::Move, Cursor::Port(p))
            &&& driver_kept(s, t)
        },
    }
}

/// What running `action` does, from state `s` to state `t`, telling `r`: a
/// repeat runs a copy of the last action to repeat (and does nothing when
/// there is none); anything else does as [`ran_once`] says.
pub open spec fn processed<W: GraphWidget>(
    action: Action<W::NodeId, W::PortId, W::NodeKind, W::Point>,
    count: Option<u32>,
    s: EditorState<W>,
    t: EditorState<W>,
    r: bool,
) -> bool {
    if action matches Action::SimpleAction(SimpleAction::Repeat(_)) {
        match s.1.last_action.action {
            None => !r && t == s,
            Some(l) => exists|l2: Action<W::NodeId, W::PortId, W::NodeKind, W::Point>|
                cloned_action(l, l2) && #[trigger] ran_once(l2, count, s, t, r),
        }
    } else {
        ran_once(action, count, s, t, r)
    }
}

/// `b` is a copy of the action `a`, its node kind cloned.
pub open spec fn cloned_action<N, P, K: Clone, Pt>(a: Action<N, P, K, Pt>, b: Action<N, P, K, Pt>) -> bool {
    match (a, b) {
        (Action::CreateNode(CreateNode(k, p)), Action::CreateNode(CreateNode(k2, p2))) => cloned(k, k2) && p2 == p,
        (Action::CreateNode(..), _) => false,
        _ => b == a,
    }
}

/// A copy of the action, its node kind cloned.
pub fn clone_action<N: Copy, P: Copy, K: Clone, Pt: Copy>(a: &Action<N, P, K, Pt>) -> (r: Action<N, P, K, Pt>)
    ensures
        cloned_action(*a, r),
{
    match a {
        Action::SimpleAction(s) => Action::SimpleAction(*s),
        Action::CreateEdge(e) => Action::CreateEdge(*e),
        Action::CreateNode(CreateNode(k, p)) => Action::CreateNode(CreateNode(k.clone(), *p)),
        Action::GoToPort(g) => Action::GoToPort(*g),
    }
}

/// Count keys carry characters no lower than `0`.
pub open spec fn digits_ok<N, P, K, Pt>(a: Action<N, P, K, Pt>) -> bool {
    a matches Action::SimpleAction(SimpleAction::PushCount(p)) ==> '0' <= p.0
}

/// Runs an action that is not a repeat; see [`ran_once`].
fn run_once<W: GraphWidget>(
    action: &Action<W::NodeId, W::PortId, W::NodeKind, W::Point>,
    count: Option<u32>,
    widget: &mut W,
    driver: &mut DriverInner<W::NodeId, W::PortId, W::NodeKind, W::Point>,
    cursor: &mut Cursor<W::NodeId, W::PortId, W::Point>,
    cell: &mut W::Cell,
) -> (r: bool)
    requires
        !(*action matches Action::SimpleAction(SimpleAction::Repeat(_))),
        digits_ok(*action),
        count matches Some(c) ==> c > 0,
    ensures
        ran_once(
            *action,
            count,
            (*old(widget), *old(driver), *old(cursor), *old(cell)),
            (*final(widget), *final(driver), *final(cursor), *final(cell)),
            r,
        ),
        old(driver).wf() ==> final(driver).wf(),
{
    match action {
        Action::SimpleAction(a) => match *a {
            SimpleAction::PushCount(p) => driver.push_count(p, count),
            SimpleAction::Repeat(_) => {
                proof {
                    assert(false);
                }
                false
            },
            SimpleAction::SetMode(m) => driver.set_mode(m, count),
            SimpleAction::ToggleDebug(_) => driver.toggle_debug(count),
            SimpleAction::GoToOpposite(g) => g.process(widget, count, cursor, cell),
            SimpleAction::StepCursor(st) => st.process(widget, count, cursor, cell),
            SimpleAction::ViewCursor(v) => v.process(widget, count, cursor),
            SimpleAction::DeleteAtCursor(del) => del.process(widget, count, cursor, cell),
            SimpleAction::Quit(q) => q.process(widget, count),
        },
        Action::CreateEdge(e) => e.process(widget, count),
        Action::CreateNode(n) => n.process(widget, count),
        Action::GoToPort(g) => g.process(widget, count, cursor, cell),
    }
}

impl<N: Copy, P: Copy, K: Clone, Pt: Copy> Action<N, P, K, Pt> {
    /// Runs the action with the count given, if any: a repeat runs a copy
    /// of the last action to repeat (and does nothing when there is none);
    /// anything else does as [`ran_once`] says.
    pub fn process<W: GraphWidget + GraphWidgetTypes<
        NodeId = N,
        PortId = P,
        NodeKind = K,
        Point = Pt,
    >>(
        &self,
        count: Option<u32>,
        widget: &mut W,
        driver: &mut DriverInner<N, P, K, Pt>,
        cursor: &mut Cursor<N, P, Pt>,
        cell: &mut W::Cell,
    ) -> (r: bool)
        requires
            old(driver).wf(),
            count matches Some(c) ==> c > 0,
            digits_ok(*self),
        ensures
            final(driver).wf(),
            processed(
                *self,
                count,
                (*old(widget), *old(driver), *old(cursor), *old(cell)),
                (*final(widget), *final(driver), *final(cursor), *final(cell)),
                r,
            ),
    {
        match self {
            Action::SimpleAction(SimpleAction::Repeat(rep)) => {
                let again = match driver.repeat_target(*rep) {
                    Some(a) => Some(clone_action(a)),
                    None => None,
                };
                match again {
                    Some(a) => run_once(&a, count, widget, driver, cursor, cell),
                    None => false,
                }
            },
            _ => run_once(self, count, widget, driver, cursor, cell),
        }
    }
}

/// What a key the mode acceptor took comes to.
#[derive(Debug)]
pub enum KeyOutcome {
    /// The key is done with; whether it was handled.
    Handled(bool),
    /// The operator is to start, typed with this chord, with the count that
    /// was pending.
    StartOperator(Operator, String, Option<u32>),
}

impl<N: Copy, P: Copy, K: Clone, Pt: Copy> DriverInner<N, P, K, Pt> {
    /// Handles a key while no operator runs, given what the mode acceptor
    /// made of it with the chord typed so far: the driver takes it (see
    /// [`accepted`]); an action is then run with the count that was pending
    /// (see [`processed`]) and recorded (see [`finished`]); an operator is
    /// handed back to be started.
    pub fn handle_key<W: GraphWidget + GraphWidgetTypes<
        NodeId = N,
        PortId = P,
        NodeKind = K,
        Point = Pt,
    >>(
        &mut self,
        widget: &mut W,
        cursor: &mut Cursor<N, P, Pt>,
        cell: &mut W::Cell,
        pending: String,
        out: ActionOut,
    ) -> (r: KeyOutcome)
        requires
            old(self).wf(),
            out matches ActionOut::Action(a) ==> digits_ok(Action::<N, P, K, Pt>::SimpleAction(a)),
        ensures
            final(self).wf(),
            exists|d1: DriverInner<N, P, K, Pt>, step: KeyStep|
                #[trigger] accepted(*old(self), pending, out, d1, step) && match step {
                    KeyStep::Done(b) => r == KeyOutcome::Handled(b) && *final(self) == d1 && *final(widget)
                        == *old(widget) && *final(cursor) == *old(cursor) && *final(cell) == *old(cell),
                    KeyStep::RunAction(a, c) => exists|t: EditorState<W>, h: bool|
                        #[trigger] processed(Action::SimpleAction(a), c, (*old(widget), d1, *old(cursor), *old(cell)), t, h)
                            && finished(t.1, Action::SimpleAction(a), h, *final(self)) && r == KeyOutcome::Handled(h)
                            && *final(widget) == t.0 && *final(cursor) == t.2 && *final(cell) == t.3,
                    KeyStep::StartOperator(op, chord, c) => r == KeyOutcome::StartOperator(op, chord, c) && *final(self)
                        == d1 && *final(widget) == *old(widget) && *final(cursor) == *old(cursor) && *final(cell)
                        == *old(cell),
                },
    {
        let step = self.accept_out(pending, out);
        let ghost d1 = *self;
        match step {
            KeyStep::Done(b) => KeyOutcome::Handled(b),
            KeyStep::RunAction(a, count) => {
                let action: Action<N, P, K, Pt> = Action::SimpleAction(a);
                let handled = action.process(count, widget, self, cursor, cell);
                let ghost t: EditorState<W> = (*widget, *self, *cursor, *cell);
                let done = self.finish_action(Action::SimpleAction(a), handled);
                proof {
                    assert(processed(Action::SimpleAction(a), count, (*old(widget), d1, *old(cursor), *old(cell)), t, handled));
                }
                KeyOutcome::Handled(done)
            },
            KeyStep::StartOperator(op, chord, count) => KeyOutcome::StartOperator(op, chord, count),
        }
    }
}

/// The key-handling state `d2` after an operator's action ran from `d`:
/// a handled loud action (never a repeat) becomes the one to repeat, shown;
/// otherwise nothing changes.
pub open spec fn operator_recorded<N, P, K, Pt>(
    d: DriverInner<N, P, K, Pt>,
    action: Action<N, P, K, Pt>,
    handled: bool,
    d2: DriverInner<N, P, K, Pt>,
) -> bool {
    if handled && !action.spec_kind().spec_is_silent() && !is_repeat(action) {
        &&& d2.last_action.action == Some(action)
        &&& !d2.last_action.hidden
        &&& d2.count == d.count
        &&& d2.mode == d.mode
        &&& d2.debug == d.debug
        &&& d2.last_op == d.last_op
    } else {
        d2 == d
    }
}

/// What carrying out a create operator's request does, from state `s` to
/// state `t`, with `flow` for how the operator goes on: waiting or
/// prompting for a node kind goes on and changes nothing; an abort ends the
/// operator with its chord; an edge is created, becomes the action to
/// repeat, and the operator finishes with its chord.
pub open spec fn create_applied<W: GraphWidget>(
    effect: CreateEffect<W::NodeId, W::PortId>,
    s: EditorState<W>,
    t: EditorState<W>,
    flow: OperatorFlow,
) -> bool {
    match effect {
        CreateEffect::Wait | CreateEffect::PromptNodeKind => flow == OperatorFlow::Continue && t == s,
        CreateEffect::Abort(p) => flow == OperatorFlow::Abort && ended_with(s.1, p, t.1) && only_driver(s, t),
        CreateEffect::CreateEdge(from, to, p) => {
            &&& flow == OperatorFlow::Finish
            &&& t.0 == s.0.spec_create_edge(from, to)
            &&& t.2 == s.2 && t.3 == s.3
            &&& t.1.last_op.chord == p
            &&& t.1.last_action.action == Some(Action::<W::NodeId, W::PortId, W::NodeKind, W::Point>::CreateEdge(CreateEdge(from, to)))
        },
    }
}

/// What carrying out a jump's request does, from state `s` to state `t`,
/// with `flow` for how the jump goes on: waiting goes on and changes
/// nothing; an abort ends the jump with its chord; a port jumped to takes
/// the cursor there, becomes the action to repeat, and the jump goes on.
pub open spec fn jump_applied<W: GraphWidget>(
    effect: JumpEffect<W::NodeId, W::PortId>,
    s: EditorState<W>,
    t: EditorState<W>,
    flow: OperatorFlow,
) -> bool {
    match effect {
        JumpEffect::Wait => flow == OperatorFlow::Continue && t == s,
        JumpEffect::Abort(p) => flow == OperatorFlow::Abort && ended_with(s.1, p, t.1) && only_driver(s, t),
        JumpEffect::GoToPort(p) => {
            &&& flow == OperatorFlow::Continue
            &&& t.2 == Cursor::<W::NodeId, W::PortId, W::Point>::Port(p)
            &&& t.3 == s.0.spec_align(s.3, Cursor::Port(p), AlignCell::Overwrite)
            &&& t.0 == s.0.spec_update_cursor(CursorUpdate::Move, Cursor::Port(p))
            &&& t.1.last_action.action == Some(Action::<W::NodeId, W::PortId, W::NodeKind, W::Point>::GoToPort(GoToPort(p)))
        },
    }
}

/// The key-handling state after an operator ended with the chord `pending`:
/// the chord becomes the keys of the last chord; nothing else changes.
pub open spec fn ended_with<N, P, K, Pt>(d: DriverInner<N, P, K, Pt>, pending: String, d2: DriverInner<N, P, K, Pt>) -> bool {
    &&& d2.last_op.chord == pending
    &&& d2.last_op.count == d.last_op.count
    &&& d2.last_op.operator_prefix == d.last_op.operator_prefix
    &&& d2.count == d.count
    &&& d2.mode == d.mode
    &&& d2.debug == d.debug
    &&& d2.last_action == d.last_action
}

impl<N: Copy, P: Copy, K: Clone, Pt: Copy> DriverInner<N, P, K, Pt> {
    /// A running operator aborts with the chord typed.
    pub fn abort_operator(&mut self, pending: String) -> (r: OperatorFlow)
        ensures
            r == OperatorFlow::Abort,
            ended_with(*old(self), pending, *final(self)),
            old(self).wf() ==> final(self).wf(),
    {
        self.last_op.chord = pending;
        OperatorFlow::Abort
    }

    /// A running operator finishes with the chord typed.
    pub fn finish_operator(&mut self, pending: String) -> (r: OperatorFlow)
        ensures
            r == OperatorFlow::Finish,
            ended_with(*old(self), pending, *final(self)),
            old(self).wf() ==> final(self).wf(),
    {
        self.last_op.chord = pending;
        OperatorFlow::Finish
    }

    /// Runs an action on behalf of a running operator (see [`processed`]);
    /// a handled loud action becomes the one to repeat, and nothing is
    /// hidden otherwise.
    pub fn run_operator_action<W: GraphWidget + GraphWidgetTypes<
        NodeId = N,
        PortId = P,
        NodeKind = K,
        Point = Pt,
    >>(
        &mut self,
        action: Action<N, P, K, Pt>,
        count: Option<u32>,
        widget: &mut W,
        cursor: &mut Cursor<N, P, Pt>,
        cell: &mut W::Cell,
    ) -> (r: bool)
        requires
            old(self).wf(),
            count matches Some(c) ==> c > 0,
            digits_ok(action),
        ensures
            final(self).wf(),
            exists|t: EditorState<W>|
                #[trigger] processed(action, count, (*old(widget), *old(self), *old(cursor), *old(cell)), t, r)
                    && *final(widget) == t.0 && *final(cursor) == t.2 && *final(cell) == t.3 && operator_recorded(
                    t.1,
                    action,
                    r,
                    *final(self),
                ),
    {
        let loud = !action.kind().is_silent();
        let handled = action.process(count, widget, self, cursor, cell);
        let ghost t: EditorState<W> = (*widget, *self, *cursor, *cell);
        proof {
            assert(processed(action, count, (*old(widget), *old(self), *old(cursor), *old(cell)), t, handled));
        }
        if handled && loud {
            self.last_action.replace(action);
        }
        handled
    }

    /// Carries out what a create operator asked for after a key: waiting
    /// or prompting for a node kind goes on; an abort ends the operator
    /// with its chord; an edge is created (see
    /// [`Self::run_operator_action`]) and the operator finishes with its
    /// chord.
    pub fn apply_create_effect<W: GraphWidget + GraphWidgetTypes<
        NodeId = N,
        PortId = P,
        NodeKind = K,
        Point = Pt,
    >>(
        &mut self,
        effect: CreateEffect<N, P>,
        widget: &mut W,
        cursor: &mut Cursor<N, P, Pt>,
        cell: &mut W::Cell,
    ) -> (r: OperatorFlow)
        requires
            old(self).wf(),
        ensures
            final(self).wf(),
            create_applied(
                effect,
                (*old(widget), *old(self), *old(cursor), *old(cell)),
                (*final(widget), *final(self), *final(cursor), *final(cell)),
                r,
            ),
    {
        match effect {
            CreateEffect::Wait => OperatorFlow::Continue,
            CreateEffect::PromptNodeKind => OperatorFlow::Continue,
            CreateEffect::Abort(p) => self.abort_operator(p),
            CreateEffect::CreateEdge(from, to, p) => {
                let action: Action<N, P, K, Pt> = Action::CreateEdge(CreateEdge(from, to));
                self.run_operator_action(action, None, widget, cursor, cell);
                self.finish_operator(p)
            },
        }
    }
}

impl<N: Copy, P: Copy, K: Clone, Pt: Copy> DriverInner<N, P, K, Pt> {
    /// Carries out what a jump to a port asked for after a key: waiting
    /// goes on; an abort ends the operator with its chord; a port jumped to
    /// takes the cursor there (see [`Self::run_operator_action`]) and the
    /// jump goes on.
    pub fn apply_jump_effect<W: GraphWidget + GraphWidgetTypes<
        NodeId = N,
        PortId = P,
        NodeKind = K,
        Point = Pt,
    >>(
        &mut self,
        effect: JumpEffect<N, P>,
        widget: &mut W,
        cursor: &mut Cursor<N, P, Pt>,
        cell: &mut W::Cell,
    ) -> (r: OperatorFlow)
        requires
            old(self).wf(),
        ensures
            final(self).wf(),
            jump_applied(
                effect,
                (*old(widget), *old(self), *old(cursor), *old(cell)),
                (*final(widget), *final(self), *final(cursor), *final(cell)),
                r,
            ),
    {
        match effect {
            JumpEffect::Wait => OperatorFlow::Continue,
            JumpEffect::Abort(p) => self.abort_operator(p),
            JumpEffect::GoToPort(p) => {
                let action: Action<N, P, K, Pt> = Action::GoToPort(GoToPort(p));
                self.run_operator_action(action, None, widget, cursor, cell);
                OperatorFlow::Continue
            },
        }
    }
}

impl<N: Copy, P: Copy, K: Clone, Pt: Copy> DriverInner<N, P, K, Pt> {
    /// Takes the node kind the widget named for a create operator waiting
    /// for one, if any: a node of that kind is created where the cell
    /// stands (see [`Self::run_operator_action`]); either way the operator
    /// finishes with the chord it was waiting with.
    pub fn resume_create<W: GraphWidget + GraphWidgetTypes<
        NodeId = N,
        PortId = P,
        NodeKind = K,
        Point = Pt,
    >>(
        &mut self,
        op: &CreateStarted<N, P>,
        kind: Option<K>,
        widget: &mut W,
        cursor: &mut Cursor<N, P, Pt>,
        cell: &mut W::Cell,
    ) -> (r: OperatorFlow)
        requires
            old(self).wf(),
            op.0 is Yielded,
        ensures
            final(self).wf(),
            r == OperatorFlow::Finish,
            final(self).last_op.chord == op.0->Yielded_0,
            *final(cursor) == *old(cursor),
            *final(cell) == *old(cell),
            kind is None ==> *final(widget) == *old(widget) && ended_with(*old(self), op.0->Yielded_0, *final(self)),
            kind matches Some(k) ==> exists|k2: K|
                cloned(k, k2) && #[trigger] old(widget).spec_create_node(
                    k2,
                    old(widget).spec_position(*old(cell)),
                ) == *final(widget),
            kind matches Some(k) ==> final(self).last_action.action == Some(
                Action::<N, P, K, Pt>::CreateNode(CreateNode(k, old(widget).spec_position(*old(cell)))),
            ),
    {
        let position = widget.position(cell);
        match op.resume(kind, position) {
            CreateResume::CreateNode(k, pos, chord) => {
                let action: Action<N, P, K, Pt> = Action::CreateNode(CreateNode(k, pos));
                self.run_operator_action(action, None, widget, cursor, cell);
                self.finish_operator(chord)
            },
            CreateResume::Finish(chord) => self.finish_operator(chord),
        }
    }
}

/// A running operator.
#[derive(Debug)]
pub enum Started<N, P> {
    Create(CreateStarted<N, P>),
    Jump(JumpToPortStarted<N, P>),
}

impl<N, P> OperatorState for Started<N, P> {
    open spec fn spec_kind(&self) -> OperatorKind {
        match self {
            Started::Create(_) => OperatorKind::Create,
            Started::Jump(_) => OperatorKind::JumpToPort,
        }
    }

    /// The keys the running operator holds: those its own acceptor has
    /// taken while it reads what to create, or the chord it jumps or waits
    /// with.
    open spec fn spec_pending_op(&self) -> String {
        match self {
            Started::Create(c) => match c.0 {
                CreatePhase::Init(keys) => keys,
                CreatePhase::EdgeStart(chord) => chord,
                CreatePhase::EdgeConnect(chord, _) => chord,
                CreatePhase::Yielded(chord) => chord,
            },
            Started::Jump(j) => j.0.0,
        }
    }

    fn kind(&self) -> (r: OperatorKind) {
        match self {
            Started::Create(_) => OperatorKind::Create,
            Started::Jump(_) => OperatorKind::JumpToPort,
        }
    }

    fn pending_op(&self) -> (r: String) {
        match self {
            Started::Create(c) => match &c.0 {
                CreatePhase::Init(keys) => keys.clone(),
                CreatePhase::EdgeStart(chord) => chord.clone(),
                CreatePhase::EdgeConnect(chord, _) => chord.clone(),
                CreatePhase::Yielded(chord) => chord.clone(),
            },
            Started::Jump(j) => j.0.0.clone(),
        }
    }
}

/// What the running operator's acceptor made of a key.
pub enum OperatorInput<N, P> {
    Create(CreateInput<N, P>),
    Jump(JumpOut<SidedPort<N, P>>),
}

/// The jump's request for what its acceptor made of a key; see
/// [`jump_port_step`].
pub open spec fn jump_effect<N, P>(pending: String, out: JumpOut<SidedPort<N, P>>) -> JumpEffect<N, P> {
    match out {
        JumpOut::Trap => JumpEffect::Abort(pending),
        JumpOut::Advance => JumpEffect::Wait,
        JumpOut::Accept(p) => JumpEffect::GoToPort(p),
    }
}

/// The input fits the running operator: a create operator's own input for
/// its phase (see [`input_fits`]), a jump's output for a jump.
pub open spec fn operator_input_fits<N, P>(op: Started<N, P>, input: OperatorInput<N, P>) -> bool {
    match (op, input) {
        (Started::Create(c), OperatorInput::Create(i)) => input_fits(c.0, i),
        (Started::Jump(_), OperatorInput::Jump(_)) => true,
        _ => false,
    }
}

/// What a running operator does with a key, from state `s` to state `t`:
/// it becomes `next` and asks for what it carries out with `flow` (see
/// [`create_step`], [`create_applied`], [`jump_applied`]).
pub open spec fn operator_stepped<W: GraphWidget>(
    op: Started<W::NodeId, W::PortId>,
    pending: String,
    input: OperatorInput<W::NodeId, W::PortId>,
    next: Started<W::NodeId, W::PortId>,
    s: EditorState<W>,
    t: EditorState<W>,
    flow: OperatorFlow,
) -> bool {
    match (op, input) {
        (Started::Create(c), OperatorInput::Create(i)) => {
            let (phase, effect) = create_step(c.0, pending, i, s.2);
            &&& next == Started::<W::NodeId, W::PortId>::Create(CreateStarted(phase))
            &&& create_applied(effect, s, t, flow)
        },
        (Started::Jump(_), OperatorInput::Jump(o)) => next == op && jump_applied(jump_effect(pending, o), s, t, flow),
        _ => false,
    }
}

impl<N: Copy, P: Copy, K: Clone, Pt: Copy> DriverInner<N, P, K, Pt> {
    /// Handles a key while an operator runs, given what its acceptor made
    /// of it with the chord typed so far: the operator steps (see
    /// [`operator_stepped`]); if it goes on, it stays the running operator
    /// as it now stands; if it finished or aborted, it is popped and the
    /// operator it interrupted resumes. The key was handled unless the
    /// operator aborted.
    pub fn handle_operator_key<W: GraphWidget + GraphWidgetTypes<
        NodeId = N,
        PortId = P,
        NodeKind = K,
        Point = Pt,
    >>(
        &mut self,
        current: &mut CurrentOperator<Started<N, P>>,
        stashed: &mut Vec<(String, Started<N, P>)>,
        widget: &mut W,
        cursor: &mut Cursor<N, P, Pt>,
        cell: &mut W::Cell,
        pending: String,
        input: OperatorInput<N, P>,
    ) -> (r: bool)
        requires
            old(self).wf(),
            old(current).current is Some,
            old(current).wf(old(stashed)@),
            operator_input_fits((old(current).current->0).1, input),
        ensures
            final(self).wf(),
            final(current).wf(final(stashed)@),
            exists|next: Started<N, P>, flow: OperatorFlow|
                #[trigger] operator_stepped(
                    (old(current).current->0).1,
                    pending,
                    input,
                    next,
                    (*old(widget), *old(self), *old(cursor), *old(cell)),
                    (*final(widget), *final(self), *final(cursor), *final(cell)),
                    flow,
                ) && r == (flow != OperatorFlow::Abort) && (flow == OperatorFlow::Continue ==> final(current).current
                    == Some(((old(current).current->0).0, next)) && final(stashed)@ == old(stashed)@) && (flow
                    != OperatorFlow::Continue ==> (final(current).current, final(stashed)@) == popped(
                    old(current).current,
                    old(stashed)@,
                )),
    {
        let ghost s0: EditorState<W> = (*widget, *self, *cursor, *cell);
        let ghost cur0 = current.current;
        let ghost pend = pending;
        let ghost inp = input;
        let taken = current.current.take();
        let (chord, op) = match taken {
            Some(x) => x,
            None => {
                proof {
                    assert(false);
                }
                return false;
            },
        };
        let (next, flow) = match (op, input) {
            (Started::Create(mut c), OperatorInput::Create(i)) => {
                let effect = c.step(pending, i, cursor);
                let flow = self.apply_create_effect(effect, widget, cursor, cell);
                (Started::Create(c), flow)
            },
            (Started::Jump(j), OperatorInput::Jump(o)) => {
                let effect = jump_port_step(pending, o);
                let flow = self.apply_jump_effect(effect, widget, cursor, cell);
                (Started::Jump(j), flow)
            },
            (op, _) => {
                proof {
                    assert(false);
                }
                (op, OperatorFlow::Continue)
            },
        };
        let ghost t: EditorState<W> = (*widget, *self, *cursor, *cell);
        let ghost nx = next;
        proof {
            assert(operator_stepped((cur0->0).1, pend, inp, nx, s0, t, flow));
        }
        current.current = Some((chord, next));
        proof {
            assert(current.current == Some(((cur0->0).0, nx)));
        }
        after_step(current, stashed, flow)
    }
}

/// Starts an operator: the create operator starts reading what to create,
/// and is refused with a count. A jump to a port is refused with a count;
/// without one it has no targets to start with.
pub fn start_operator<N, P>(operator: Operator, count: Option<u32>) -> (r: Result<Started<N, P>, StartError>)
    requires
        operator is JumpToPort ==> count is Some,
    ensures
        r is Ok <==> (operator is Create && count is None),
        r matches Ok(s) ==> s matches Started::Create(c) && super::create_op::is_fresh(c.0),
{
    match operator {
        Operator::Create(c) => match c.start_op(count) {
            Ok(s) => Ok(Started::Create(s)),
            Err(e) => Err(e),
        },
        Operator::JumpToPort(_) => Err(StartError::new()),
    }
}

/// Starts the operator typed with `chord`, with the count that was pending
/// (see [`start_operator`]): one that starts becomes the running operator,
/// above the one it interrupts; the key was handled when it started.
pub fn init_operator<N, P>(
    current: &mut CurrentOperator<Started<N, P>>,
    stashed: &mut Vec<(String, Started<N, P>)>,
    chord: String,
    operator: Operator,
    count: Option<u32>,
) -> (r: bool)
    requires
        old(current).wf(old(stashed)@),
        operator is JumpToPort ==> count is Some,
    ensures
        r <==> (operator is Create && count is None),
        final(current).wf(final(stashed)@),
        r ==> (final(current).current matches Some((c, Started::Create(s))) && c == chord
            && super::create_op::is_fresh(s.0)),
        r ==> final(stashed)@ == match old(current).current {
            Some(o) => old(stashed)@.push(o),
            None => old(stashed)@,
        },
        !r ==> final(current).current == old(current).current && final(stashed)@ == old(stashed)@,
{
    let started = start_operator(operator, count);
    after_start(current, stashed, chord, started, OperatorFlow::Continue)
}

/// The editor around a widget: the running operator above those it
/// interrupted, the key-handling state, the cursor and its cell.
pub struct GraphWidgetDriver<W: GraphWidgetTypes> {
    pub current_operator: CurrentOperator<Started<W::NodeId, W::PortId>>,
    pub stashed_operators: Vec<(String, Started<W::NodeId, W::PortId>)>,
    pub inner: DriverInner<W::NodeId, W::PortId, W::NodeKind, W::Point>,
    pub cursor: Cursor<W::NodeId, W::PortId, W::Point>,
    pub cell: W::Cell,
}

impl<W: CursorOps> GraphWidgetDriver<W> {
    /// The editor as a session starts (see [`DriverInner::is_new`]), no
    /// operator running, the cursor where the widget starts it and the cell
    /// where that cursor stands.
    pub fn new(widget: &W) -> (r: Self)
        ensures
            r.inner.is_new(),
            r.inner.wf(),
            r.current_operator.current is None,
            r.stashed_operators@.len() == 0,
            r.current_operator.wf(r.stashed_operators@),
            r.cursor == widget.spec_default_cursor(),
            r.cell == widget.spec_cell_of(r.cursor),
    {
        let cursor = widget.default_cursor();
        let cell = widget.cell_of(&cursor);
        GraphWidgetDriver {
            current_operator: CurrentOperator::new(),
            stashed_operators: Vec::new(),
            inner: DriverInner::new(),
            cursor,
            cell,
        }
    }

    pub fn cursor(&self) -> (r: &Cursor<W::NodeId, W::PortId, W::Point>)
        ensures
            *r == self.cursor,
    {
        &self.cursor
    }

    pub fn cursor_cell(&self) -> (r: &W::Cell)
        ensures
            *r == self.cell,
    {
        &self.cell
    }

    /// Whether the debug view is on.
    pub fn view_debug(&self) -> (r: bool)
        ensures
            r == self.inner.debug,
    {
        self.inner.debug
    }
}

} // verus!
