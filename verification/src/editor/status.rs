use vstd::prelude::*;

use super::actions::ActionKind;
use super::driver::DriverInner;
use super::mode::ModeKind;
use super::operators::{CurrentOperator, OperatorKind};
use super::widget::UiOps;

verus! {

/// The last chord typed: its count, the operator prefix it was typed under,
/// and its keys.
#[derive(Debug, Clone, PartialEq, Eq)]
pub struct LastChord {
    pub count: Option<u32>,
    pub operator_prefix: Option<String>,
    pub chord: String,
}

impl Default for LastChord {
    fn default() -> (r: Self)
        ensures
            r.count is None,
            r.operator_prefix is None,
            r.chord@ == Seq::<char>::empty(),
    {
        LastChord { count: None, operator_prefix: None, chord: String::new() }
    }
}

/// What the status line shows of the running operator.
#[derive(Debug, Clone, PartialEq, Eq)]
pub struct CurrentOperatorStatus {
    pub operator_chord: String,
    pub operator: OperatorKind,
    pub pending_op: String,
}

/// What the status line shows.
#[derive(Debug, Clone, PartialEq, Eq)]
pub struct Status {
    pub count: Option<u32>,
    pub mode: ModeKind,
    pub last_action: Option<ActionKind>,
    pub current_operator: Option<CurrentOperatorStatus>,
    pub pending_op: String,
    pub last_chord: LastChord,
    pub debug: bool,
}

/// The status a session starts with: nothing counted, pending, running or
/// remembered, in normal mode, without the debug view.
pub open spec fn is_default_status(s: Status) -> bool {
    &&& s.count is None
    &&& s.mode == ModeKind::Normal
    &&& s.last_action is None
    &&& s.current_operator is None
    &&& s.pending_op@ == Seq::<char>::empty()
    &&& s.last_chord.count is None
    &&& s.last_chord.operator_prefix is None
    &&& s.last_chord.chord@ == Seq::<char>::empty()
    &&& !s.debug
}

impl Default for Status {
    fn default() -> (r: Self)
        ensures
            is_default_status(r),
    {
        Status {
            count: None,
            mode: ModeKind::Normal,
            last_action: None,
            current_operator: None,
            pending_op: String::new(),
            last_chord: LastChord::default(),
            debug: false,
        }
    }
}

/// What a running operator shows: its kind and the keys it has taken so far.
pub trait OperatorState {
    spec fn spec_kind(&self) -> OperatorKind;

    spec fn spec_pending_op(&self) -> String;

    fn kind(&self) -> (r: OperatorKind)
        ensures
            r == self.spec_kind(),
    ;

    fn pending_op(&self) -> (r: String)
        ensures
            r == self.spec_pending_op(),
    ;
}

/// `s` is what the status line shows of driver `d` with `current_operator`
/// running and the keys `pending_op` taken by the mode so far: the pending
/// count, the mode, the last action unless hidden, the running operator
/// with the chord that started it, the pending keys, the last chord and
/// the debug flag.
pub open spec fn shows<N, P, K, Pt, S: OperatorState>(
    s: Status,
    d: DriverInner<N, P, K, Pt>,
    current_operator: CurrentOperator<S>,
    pending_op: String,
) -> bool {
    &&& s.count == d.count
    &&& s.mode == d.mode.spec_kind()
    &&& s.last_action == match d.last_action.spec_as_ref(false) {
        Some(a) => Some(a.spec_kind()),
        None => None,
    }
    &&& (s.current_operator is Some <==> current_operator.current is Some)
    &&& (s.current_operator matches Some(o) ==> {
        let (chord, running) = current_operator.current->0;
        &&& o.operator_chord == chord
        &&& o.operator == running.spec_kind()
        &&& o.pending_op == running.spec_pending_op()
    })
    &&& s.pending_op == pending_op
    &&& s.last_chord == d.last_op
    &&& s.debug == d.debug
}

/// A driver as a session starts, with no operator running and no keys
/// taken, shows the status a session starts with.
pub proof fn lemma_new_driver_status<N, P, K, Pt, S: OperatorState>(
    d: DriverInner<N, P, K, Pt>,
    current_operator: CurrentOperator<S>,
    pending_op: String,
    s: Status,
)
    requires
        d.is_new(),
        current_operator.current is None,
        pending_op@ == Seq::<char>::empty(),
        shows(s, d, current_operator, pending_op),
    ensures
        is_default_status(s),
{
}

impl<N, P, K, Pt> DriverInner<N, P, K, Pt> {
    /// What the status line shows; see [`shows`].
    pub fn status<S: OperatorState>(&self, current_operator: &CurrentOperator<S>, pending_op: String) -> (r: Status)
        ensures
            shows(r, *self, *current_operator, pending_op),
    {
        let last_action = match self.last_action.as_ref(false) {
            Some(a) => Some(a.kind()),
            None => None,
        };
        let current = match current_operator.status() {
            Some((c, o)) => Some(CurrentOperatorStatus { operator_chord: c.clone(), operator: o.kind(), pending_op: o.pending_op() }),
            None => None,
        };
        let last_chord = LastChord {
            count: self.last_op.count,
            operator_prefix: match &self.last_op.operator_prefix {
                Some(p) => Some(p.clone()),
                None => None,
            },
            chord: self.last_op.chord.clone(),
        };
        Status {
            count: self.count,
            mode: self.mode.kind(),
            last_action,
            current_operator: current,
            pending_op,
            last_chord,
            debug: self.debug,
        }
    }
}


/// Two optional strings read the same.
pub open spec fn same_text(a: Option<String>, b: Option<String>) -> bool {
    match (a, b) {
        (Some(x), Some(y)) => x@ == y@,
        (None, None) => true,
        _ => false,
    }
}

/// Two statuses show the same: every field alike, texts compared by what
/// they read.
pub open spec fn same_status(a: Status, b: Status) -> bool {
    &&& a.count == b.count
    &&& a.mode == b.mode
    &&& a.last_action == b.last_action
    &&& match (a.current_operator, b.current_operator) {
        (Some(x), Some(y)) => x.operator_chord@ == y.operator_chord@ && x.operator == y.operator && x.pending_op@
            == y.pending_op@,
        (None, None) => true,
        _ => false,
    }
    &&& a.pending_op@ == b.pending_op@
    &&& a.last_chord.count == b.last_chord.count
    &&& same_text(a.last_chord.operator_prefix, b.last_chord.operator_prefix)
    &&& a.last_chord.chord@ == b.last_chord.chord@
    &&& a.debug == b.debug
}

fn same_text_exec(a: &Option<String>, b: &Option<String>) -> (r: bool)
    ensures
        r == same_text(*a, *b),
{
    match (a, b) {
        (Some(x), Some(y)) => *x == *y,
        (None, None) => true,
        _ => false,
    }
}

/// Whether two statuses show the same; see [`same_status`].
pub fn status_same(a: &Status, b: &Status) -> (r: bool)
    ensures
        r == same_status(*a, *b),
{
    let ops = match (&a.current_operator, &b.current_operator) {
        (Some(x), Some(y)) => x.operator_chord == y.operator_chord && x.operator == y.operator && x.pending_op
            == y.pending_op,
        (None, None) => true,
        _ => false,
    };
    let actions = match (a.last_action, b.last_action) {
        (Some(x), Some(y)) => x == y,
        (None, None) => true,
        _ => false,
    };
    a.count == b.count && a.mode == b.mode && actions && ops && a.pending_op == b.pending_op && a.last_chord.count
        == b.last_chord.count && same_text_exec(&a.last_chord.operator_prefix, &b.last_chord.operator_prefix)
        && a.last_chord.chord == b.last_chord.chord && a.debug == b.debug
}

/// Shows the status `after` on the widget if it differs from `before`,
/// the status shown until then; tells whether it did.
pub fn show_status_change<W: UiOps>(widget: &mut W, before: &Status, after: Status) -> (changed: bool)
    ensures
        changed == !same_status(*before, after),
        changed ==> *final(widget) == old(widget).spec_update_status(after),
        !changed ==> *final(widget) == *old(widget),
{
    if status_same(before, &after) {
        false
    } else {
        widget.update_status(after);
        true
    }
}

/// A hidden last action is not shown; one not hidden is shown by its kind.
pub proof fn lemma_hidden_action_not_shown<N, P, K, Pt, S: OperatorState>(
    s: Status,
    d: DriverInner<N, P, K, Pt>,
    current_operator: CurrentOperator<S>,
    pending_op: String,
)
    requires
        shows(s, d, current_operator, pending_op),
    ensures
        d.last_action.hidden ==> s.last_action is None,
        !d.last_action.hidden ==> s.last_action == match d.last_action.action {
            Some(a) => Some(a.spec_kind()),
            None => None,
        },
{
}

} // verus!
