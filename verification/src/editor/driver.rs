use vstd::prelude::*;

use super::actions::{spec_push_count, Action, ActionKind, SimpleAction, PushCount, SetMode, Repeat};
use super::bindings::ActionOut;
use super::mode::{Mode, ModeKind, NormalAccept};
use super::operators::Operator;
use super::status::LastChord;

verus! {

/// Whether an action is a repeat.
pub open spec fn is_repeat<N, P, K, Pt>(a: Action<N, P, K, Pt>) -> bool {
    a matches Action::SimpleAction(SimpleAction::Repeat(_))
}

/// The last loud action, kept for repeating; hidden once another chord
/// starts, but still repeatable.
pub struct LastAction<N, P, K, Pt> {
    pub action: Option<Action<N, P, K, Pt>>,
    pub hidden: bool,
}

impl<N, P, K, Pt> LastAction<N, P, K, Pt> {
    /// A repeat is never the action to repeat.
    pub open spec fn wf(self) -> bool {
        self.action matches Some(a) ==> !is_repeat(a)
    }

    pub fn new() -> (r: Self)
        ensures
            r.action is None,
            !r.hidden,
            r.wf(),
    {
        LastAction { action: None, hidden: false }
    }

    /// The action, unless it is hidden and hidden ones are not asked for.
    pub open spec fn spec_as_ref(self, show_hidden: bool) -> Option<Action<N, P, K, Pt>> {
        if show_hidden || !self.hidden {
            self.action
        } else {
            None
        }
    }

    pub fn as_ref(&self, show_hidden: bool) -> (r: Option<&Action<N, P, K, Pt>>)
        ensures
            r is Some <==> self.spec_as_ref(show_hidden) is Some,
            r matches Some(a) ==> self.spec_as_ref(show_hidden) == Some(*a),
    {
        if show_hidden || !self.hidden {
            match &self.action {
                Some(a) => Some(a),
                None => None,
            }
        } else {
            None
        }
    }

    /// Records `action` as the one to repeat and shows it, giving back the
    /// one it replaces; a repeat is never recorded.
    pub fn replace(&mut self, action: Action<N, P, K, Pt>) -> (r: Option<Action<N, P, K, Pt>>)
        ensures
            is_repeat(action) ==> r is None && *final(self) == *old(self),
            !is_repeat(action) ==> r == old(self).action && final(self).action == Some(action)
                && !final(self).hidden,
            old(self).wf() ==> final(self).wf(),
    {
        if let Action::SimpleAction(SimpleAction::Repeat(_)) = action {
            return None;
        }
        self.hidden = false;
        let prev = self.action.take();
        self.action = Some(action);
        prev
    }

    pub fn hide_action(&mut self)
        ensures
            final(self).action == old(self).action,
            final(self).hidden,
    {
        self.hidden = true;
    }
}

/// The editor state that key handling decides on.
pub struct DriverInner<N, P, K, Pt> {
    /// The pending count; never zero.
    pub count: Option<u32>,
    pub mode: Mode,
    pub debug: bool,
    pub last_action: LastAction<N, P, K, Pt>,
    pub last_op: LastChord,
}

/// What the driver goes on to do with a key the mode acceptor handled.
pub enum KeyStep {
    /// The key is done with; whether it was handled.
    Done(bool),
    /// Run the action with the count that was pending.
    RunAction(SimpleAction, Option<u32>),
    /// Start the operator, typed with this chord, with the count that was
    /// pending.
    StartOperator(Operator, String, Option<u32>),
}

/// What taking the mode acceptor's output `out` for a key, with the chord
/// `pending` typed so far, does to driver `d`, leaving `d2` and the next
/// step: a refused key ends the chord (recording it if anything was typed),
/// a key that extends the chord keeps waiting, an action is handed on with
/// the count (recorded as the last chord unless the action is silent), and
/// an operator is handed on with its chord.
pub open spec fn accepted<N, P, K, Pt>(
    d: DriverInner<N, P, K, Pt>,
    pending: String,
    out: ActionOut,
    d2: DriverInner<N, P, K, Pt>,
    step: KeyStep,
) -> bool {
    &&& d2.mode == d.mode
    &&& d2.debug == d.debug
    &&& d2.last_action.action == d.last_action.action
    &&& match out {
        ActionOut::Trap => {
            &&& step == KeyStep::Done(false)
            &&& d2.count is None
            &&& d2.last_action.hidden
            &&& if d.count is Some || pending@.len() > 0 {
                d2.last_op == LastChord {
                    count: d.count,
                    operator_prefix: None,
                    chord: pending,
                }
            } else {
                d2.last_op == d.last_op
            }
        },
        ActionOut::Advance => {
            &&& step == KeyStep::Done(true)
            &&& d2.count == d.count
            &&& d2.last_action.hidden
            &&& d2.last_op == d.last_op
        },
        ActionOut::Modifier => {
            &&& step == KeyStep::Done(false)
            &&& d2.count == d.count
            &&& d2.last_action == d.last_action
            &&& d2.last_op == d.last_op
        },
        ActionOut::Action(a) => {
            &&& step == KeyStep::RunAction(a, d.count)
            &&& d2.count is None
            &&& d2.last_action == d.last_action
            &&& if !a.spec_kind().spec_is_silent() {
                d2.last_op == LastChord {
                    count: d.count,
                    operator_prefix: None,
                    chord: pending,
                }
            } else {
                d2.last_op == d.last_op
            }
        },
        ActionOut::Operator(op) => {
            &&& step matches KeyStep::StartOperator(o, chord, c) && o == op && chord@
                == pending@ && c == d.count
            &&& d2.count is None
            &&& d2.last_action.hidden
            &&& d2.last_op.count == d.count
            &&& d2.last_op.operator_prefix matches Some(p) && p@ == pending@
            &&& d2.last_op.chord@ == Seq::<char>::empty()
        },
    }
}

/// What recording how running `action` went does to driver `d`, leaving
/// `d2`: a handled loud action becomes the one to repeat (a repeat is never
/// recorded); anything else hides the last action.
pub open spec fn finished<N, P, K, Pt>(
    d: DriverInner<N, P, K, Pt>,
    action: Action<N, P, K, Pt>,
    handled: bool,
    d2: DriverInner<N, P, K, Pt>,
) -> bool {
    &&& d2.count == d.count
    &&& d2.mode == d.mode
    &&& d2.debug == d.debug
    &&& d2.last_op == d.last_op
    &&& handled && !action.spec_kind().spec_is_silent() && !is_repeat(action) ==> d2.last_action.action == Some(
        action,
    ) && !d2.last_action.hidden
    &&& handled && !action.spec_kind().spec_is_silent() && is_repeat(action) ==> d2.last_action == d.last_action
    &&& !(handled && !action.spec_kind().spec_is_silent()) ==> d2.last_action.action == d.last_action.action
        && d2.last_action.hidden
}

impl<N, P, K, Pt> DriverInner<N, P, K, Pt> {
    /// The pending count is never zero, and the action to repeat is a loud
    /// one and never a repeat.
    pub open spec fn wf(self) -> bool {
        &&& self.count matches Some(c) ==> c > 0
        &&& self.last_action.wf()
        &&& self.last_action.action matches Some(a) ==> !a.spec_kind().spec_is_silent()
    }

    /// The driver as a session starts: no count, normal mode with a fresh
    /// acceptor, no debug view, no last action and an empty last chord.
    pub open spec fn is_new(self) -> bool {
        &&& self.count is None
        &&& self.mode == Mode::spec_default()
        &&& !self.debug
        &&& self.last_action.action is None
        &&& !self.last_action.hidden
        &&& self.last_op.count is None
        &&& self.last_op.operator_prefix is None
        &&& self.last_op.chord@ == Seq::<char>::empty()
    }

    /// A driver as a session starts; see [`Self::is_new`].
    pub fn new() -> (r: Self)
        ensures
            r.is_new(),
            r.wf(),
    {
        DriverInner {
            count: None,
            mode: Mode::Normal(NormalAccept::default()),
            debug: false,
            last_action: LastAction::new(),
            last_op: LastChord::default(),
        }
    }

    /// Takes what the mode acceptor made of a key, with the chord typed so
    /// far; see [`accepted`].
    pub fn accept_out(&mut self, pending: String, out: ActionOut) -> (r: KeyStep)
        requires
            old(self).wf(),
        ensures
            final(self).wf(),
            accepted(*old(self), pending, out, *final(self), r),
    {
        match out {
            ActionOut::Trap => {
                if self.count.is_some() || !pending.as_str().is_empty() {
                    self.last_op = LastChord { count: self.count, operator_prefix: None, chord: pending };
                }
                self.count = None;
                self.last_action.hide_action();
                KeyStep::Done(false)
            },
            ActionOut::Advance => {
                self.last_action.hide_action();
                KeyStep::Done(true)
            },
            ActionOut::Modifier => KeyStep::Done(false),
            ActionOut::Action(action) => {
                let loud = !action.kind().is_silent();
                if loud {
                    self.last_op = LastChord { count: self.count, operator_prefix: None, chord: pending };
                }
                let count = self.count.take();
                KeyStep::RunAction(action, count)
            },
            ActionOut::Operator(operator) => {
                self.last_op = LastChord {
                    count: self.count,
                    operator_prefix: Some(pending.clone()),
                    chord: String::new(),
                };
                self.last_action.hide_action();
                let count = self.count.take();
                KeyStep::StartOperator(operator, pending, count)
            },
        }
    }

    /// Records how running an action went: a handled loud action becomes
    /// the one to repeat; anything else hides the last action.
    pub fn finish_action(&mut self, action: Action<N, P, K, Pt>, handled: bool) -> (r: bool)
        ensures
            r == handled,
            old(self).wf() ==> final(self).wf(),
            finished(*old(self), action, handled, *final(self)),
    {
        let loud = !action.kind().is_silent();
        if handled && loud {
            self.last_action.replace(action);
        } else {
            self.last_action.hide_action();
        }
        handled
    }

    /// Runs a digit key: the count becomes the pushed count.
    pub fn push_count(&mut self, action: PushCount, count: Option<u32>) -> (r: bool)
        requires
            '0' <= action.0,
        ensures
            r,
            final(self).count == spec_push_count(count, action.0),
            final(self).count matches Some(c) ==> c > 0,
            old(self).wf() ==> final(self).wf(),
            final(self).mode == old(self).mode,
            final(self).debug == old(self).debug,
            final(self).last_action == old(self).last_action,
            final(self).last_op == old(self).last_op,
    {
        self.count = action.process_count(count);
        true
    }

    /// Switches mode; refuses a count.
    pub fn set_mode(&mut self, action: SetMode, count: Option<u32>) -> (r: bool)
        ensures
            count is Some ==> !r && final(self).mode == old(self).mode,
            count is None ==> r == (old(self).mode.spec_kind() != action.0),
            final(self).mode.spec_kind() == if count is None {
                action.0
            } else {
                old(self).mode.spec_kind()
            },
            final(self).mode == if r {
                match action.0 {
                    ModeKind::Normal => Mode::spec_default(),
                }
            } else {
                old(self).mode
            },
            final(self).count == old(self).count,
            final(self).debug == old(self).debug,
            final(self).last_action == old(self).last_action,
            final(self).last_op == old(self).last_op,
    {
        if count.is_some() {
            return false;
        }
        self.mode.change(action.0)
    }

    /// Toggles the debug view; refuses a count.
    pub fn toggle_debug(&mut self, count: Option<u32>) -> (r: bool)
        ensures
            r == count is None,
            final(self).debug == if count is None {
                !old(self).debug
            } else {
                old(self).debug
            },
            final(self).count == old(self).count,
            final(self).mode == old(self).mode,
            final(self).last_action == old(self).last_action,
            final(self).last_op == old(self).last_op,
    {
        if count.is_some() {
            return false;
        }
        self.debug = !self.debug;
        true
    }

    /// The action a repeat runs: the last loud action, even when hidden;
    /// never a repeat itself.
    pub fn repeat_target(&self, action: Repeat) -> (r: Option<&Action<N, P, K, Pt>>)
        ensures
            r is Some <==> self.last_action.action is Some,
            r matches Some(a) ==> self.last_action.action == Some(*a),
            self.wf() ==> (r matches Some(a) ==> !is_repeat(*a)),
    {
        self.last_action.as_ref(true)
    }
}

/// A handled action that is neither a count key, a step nor a repeat
/// becomes the action to repeat, shown.
pub proof fn lemma_loud_action_recorded<N, P, K, Pt>(
    d: DriverInner<N, P, K, Pt>,
    a: Action<N, P, K, Pt>,
    d2: DriverInner<N, P, K, Pt>,
)
    requires
        finished(d, a, true, d2),
        !is_repeat(a),
        a.spec_kind() != ActionKind::PushCount,
        a.spec_kind() != ActionKind::StepDown,
        a.spec_kind() != ActionKind::StepLeft,
        a.spec_kind() != ActionKind::StepRight,
        a.spec_kind() != ActionKind::StepUp,
    ensures
        d2.last_action.action == Some(a),
        !d2.last_action.hidden,
{
}

} // verus!
