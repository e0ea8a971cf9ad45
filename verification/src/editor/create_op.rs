use vstd::prelude::*;

use super::bindings::{CreateOpAction, CreateOut};
use super::cursor::Cursor;
use super::jump::JumpOut;
use super::operators::{Create, StartError};
use super::types::{Port, Side, SidedPort};

verus! {

/// Where a running create operator stands.
#[derive(Debug)]
pub enum CreatePhase<N, P> {
    /// Reading what to create, with the keys its acceptor holds so far.
    Init(String),
    /// Creating an edge from the node under the cursor: jumping to its
    /// first port, from the chord typed so far.
    EdgeStart(String),
    /// Creating an edge from a port: jumping to its other end, from the
    /// chord typed so far.
    EdgeConnect(String, SidedPort<N, P>),
    /// Waiting for the widget to name the kind of node to create; the chord
    /// typed so far.
    Yielded(String),
}

/// A running create operator.
#[derive(Debug)]
pub struct CreateStarted<N, P>(pub CreatePhase<N, P>);

/// What a create operator was given for a key: what its own acceptor made
/// of it while it reads what to create, or what the running jump made of it.
pub enum CreateInput<N, P> {
    Op(CreateOut),
    Jump(JumpOut<SidedPort<N, P>>),
}

/// What a create operator asks of the editor after a key.
#[derive(Debug)]
pub enum CreateEffect<N, P> {
    /// Nothing yet; it waits for more keys.
    Wait,
    /// It aborts with the chord typed.
    Abort(String),
    /// The widget is to be asked for a node kind; the operator waits for the
    /// answer.
    PromptNodeKind,
    /// The edge is to be created, then the operator finishes with the chord.
    CreateEdge(Port<N, P>, Port<N, P>, String),
}

/// What a create operator asks of the editor when the widget names a node
/// kind, or names none.
#[derive(Debug)]
pub enum CreateResume<K, Pt> {
    /// A node of the kind is to be created at the point, then the operator
    /// finishes with the chord.
    CreateNode(K, Pt, String),
    /// The operator finishes with the chord.
    Finish(String),
}

/// A create operator as it starts: reading what to create, with no keys
/// taken yet.
pub open spec fn is_fresh<N, P>(phase: CreatePhase<N, P>) -> bool {
    phase matches CreatePhase::Init(keys) && keys@ == Seq::<char>::empty()
}

impl Create {
    /// Starts the create operator: refused with a count.
    pub fn start_op<N, P>(&self, count: Option<u32>) -> (r: Result<CreateStarted<N, P>, StartError>)
        ensures
            r is Ok <==> count is None,
            r matches Ok(s) ==> is_fresh(s.0),
    {
        match count {
            Some(_) => Err(StartError::new()),
            None => Ok(CreateStarted(CreatePhase::Init(String::new()))),
        }
    }
}

/// The ends of the edge a create operator makes from port `p` to the port
/// `other` it jumped to: from the port on the input side to the port on the
/// output side, whichever of the two was picked first.
pub open spec fn edge_ends<N, P>(p: SidedPort<N, P>, other: SidedPort<N, P>) -> (Port<N, P>, Port<N, P>) {
    match p.0 {
        Side::In => (p.1, other.1),
        Side::Out => (other.1, p.1),
    }
}

/// A create operator's next phase and what it asks for, given what the key
/// `input` came to with the chord `pending`, the cursor standing at
/// `cursor`:
/// - reading what to create, a trap aborts; a node waits for its kind; an
///   edge from a node under the cursor jumps to its first port, from a port
///   on the side named jumps to its other end, and is aborted anywhere else;
/// - jumping, a trap aborts; the first port jumps on to the other end; the
///   other end creates the edge and finishes;
/// - waiting for a node kind, keys change nothing.
pub open spec fn create_step<N, P, Pt>(
    phase: CreatePhase<N, P>,
    pending: String,
    input: CreateInput<N, P>,
    cursor: Cursor<N, P, Pt>,
) -> (CreatePhase<N, P>, CreateEffect<N, P>) {
    match (phase, input) {
        (CreatePhase::Init(_), CreateInput::Op(out)) => match out {
            CreateOut::Trap => (CreatePhase::Init(pending), CreateEffect::Abort(pending)),
            CreateOut::Advance => (CreatePhase::Init(pending), CreateEffect::Wait),
            CreateOut::CreateOpAction(CreateOpAction::Accept) => (
                CreatePhase::Yielded(pending),
                CreateEffect::PromptNodeKind,
            ),
            CreateOut::CreateOpAction(CreateOpAction::Side(s)) => match cursor {
                Cursor::Node(_) => (CreatePhase::EdgeStart(pending), CreateEffect::Wait),
                Cursor::Port(p) => if p.0 == s {
                    (CreatePhase::EdgeConnect(pending, p), CreateEffect::Wait)
                } else {
                    (CreatePhase::Init(pending), CreateEffect::Abort(pending))
                },
                _ => (CreatePhase::Init(pending), CreateEffect::Abort(pending)),
            },
        },
        (CreatePhase::EdgeStart(_), CreateInput::Jump(out)) => match out {
            JumpOut::Trap => (phase, CreateEffect::Abort(pending)),
            JumpOut::Advance => (phase, CreateEffect::Wait),
            JumpOut::Accept(p) => (CreatePhase::EdgeConnect(pending, p), CreateEffect::Wait),
        },
        (CreatePhase::EdgeConnect(_, p), CreateInput::Jump(out)) => match out {
            JumpOut::Trap => (phase, CreateEffect::Abort(pending)),
            JumpOut::Advance => (phase, CreateEffect::Wait),
            JumpOut::Accept(other) => {
                let ends = edge_ends(p, other);
                (phase, CreateEffect::CreateEdge(ends.0, ends.1, pending))
            },
        },
        _ => (phase, CreateEffect::Wait),
    }
}

/// What a phase takes: its own acceptor's output while reading what to
/// create, the jump's output while jumping, anything while waiting; a port
/// jumped to as the other end of an edge is on the other side.
pub open spec fn input_fits<N, P>(phase: CreatePhase<N, P>, input: CreateInput<N, P>) -> bool {
    match phase {
        CreatePhase::Init(_) => input is Op,
        CreatePhase::EdgeStart(_) => input is Jump,
        CreatePhase::EdgeConnect(_, p) => match input {
            CreateInput::Jump(JumpOut::Accept(other)) => other.0 == p.0.spec_flip(),
            CreateInput::Jump(_) => true,
            CreateInput::Op(_) => false,
        },
        CreatePhase::Yielded(_) => true,
    }
}

impl<N: Copy, P: Copy> CreateStarted<N, P> {
    /// Takes what a key came to; see [`create_step`].
    pub fn step<Pt>(&mut self, pending: String, input: CreateInput<N, P>, cursor: &Cursor<N, P, Pt>) -> (r:
        CreateEffect<N, P>)
        requires
            input_fits(old(self).0, input),
        ensures
            (final(self).0, r) == create_step(old(self).0, pending, input, *cursor),
    {
        let mut phase = CreatePhase::Init(String::new());
        std::mem::swap(&mut phase, &mut self.0);
        let (next, effect) = match (phase, input) {
            (CreatePhase::Init(_), CreateInput::Op(out)) => match out {
                CreateOut::Trap => (CreatePhase::Init(pending.clone()), CreateEffect::Abort(pending)),
                CreateOut::Advance => (CreatePhase::Init(pending), CreateEffect::Wait),
                CreateOut::CreateOpAction(CreateOpAction::Accept) => (
                    CreatePhase::Yielded(pending),
                    CreateEffect::PromptNodeKind,
                ),
                CreateOut::CreateOpAction(CreateOpAction::Side(s)) => match cursor {
                    Cursor::Node(_) => (CreatePhase::EdgeStart(pending), CreateEffect::Wait),
                    Cursor::Port(p) => {
                        if p.0 == s {
                            (CreatePhase::EdgeConnect(pending, *p), CreateEffect::Wait)
                        } else {
                            (CreatePhase::Init(pending.clone()), CreateEffect::Abort(pending))
                        }
                    },
                    _ => (CreatePhase::Init(pending.clone()), CreateEffect::Abort(pending)),
                },
            },
            (CreatePhase::EdgeStart(chord), CreateInput::Jump(out)) => match out {
                JumpOut::Trap => (CreatePhase::EdgeStart(chord), CreateEffect::Abort(pending)),
                JumpOut::Advance => (CreatePhase::EdgeStart(chord), CreateEffect::Wait),
                JumpOut::Accept(p) => (CreatePhase::EdgeConnect(pending, p), CreateEffect::Wait),
            },
            (CreatePhase::EdgeConnect(chord, p), CreateInput::Jump(out)) => match out {
                JumpOut::Trap => (CreatePhase::EdgeConnect(chord, p), CreateEffect::Abort(pending)),
                JumpOut::Advance => (CreatePhase::EdgeConnect(chord, p), CreateEffect::Wait),
                JumpOut::Accept(other) => {
                    let (from, to) = match p.0 {
                        Side::In => (p.1, other.1),
                        Side::Out => (other.1, p.1),
                    };
                    (CreatePhase::EdgeConnect(chord, p), CreateEffect::CreateEdge(from, to, pending))
                },
            },
            (phase, _) => (phase, CreateEffect::Wait),
        };
        self.0 = next;
        effect
    }

    /// Takes the node kind the widget named, if any: a node of that kind is
    /// created at `position`; either way the operator finishes with the
    /// chord it was waiting with.
    pub fn resume<K, Pt>(&self, kind: Option<K>, position: Pt) -> (r: CreateResume<K, Pt>)
        requires
            self.0 is Yielded,
        ensures
            r == (match kind {
                Some(k) => CreateResume::CreateNode(k, position, self.0->Yielded_0),
                None => CreateResume::Finish(self.0->Yielded_0),
            }),
    {
        let chord = match &self.0 {
            CreatePhase::Yielded(c) => c.clone(),
            _ => {
                proof {
                    assert(false);
                }
                String::new()
            },
        };
        match kind {
            Some(k) => CreateResume::CreateNode(k, position, chord),
            None => CreateResume::Finish(chord),
        }
    }
}

/// What a running jump to a port asks of the editor after a key.
#[derive(Debug)]
pub enum JumpEffect<N, P> {
    /// Nothing yet; it waits for more keys.
    Wait,
    /// It aborts with the chord typed.
    Abort(String),
    /// The cursor is to go to the port.
    GoToPort(SidedPort<N, P>),
}

/// What a running jump to a port asks for, given what the jump made of a
/// key with the chord `pending`: a trap aborts, a port jumped to takes the
/// cursor there.
pub fn jump_port_step<N, P>(pending: String, out: JumpOut<SidedPort<N, P>>) -> (r: JumpEffect<N, P>)
    ensures
        r == (match out {
            JumpOut::Trap => JumpEffect::Abort(pending),
            JumpOut::Advance => JumpEffect::Wait,
            JumpOut::Accept(p) => JumpEffect::GoToPort(p),
        }),
{
    match out {
        JumpOut::Trap => JumpEffect::Abort(pending),
        JumpOut::Advance => JumpEffect::Wait,
        JumpOut::Accept(p) => JumpEffect::GoToPort(p),
    }
}

/// Naming a side while reading what to create, with the cursor on a node,
/// starts an edge from that node whichever side is named: the jump to its
/// first port follows, with the chord so far.
pub proof fn lemma_edge_from_node_either_side<N, P, Pt>(keys: String, pending: String, s: Side, n: N)
    ensures
        create_step(
            CreatePhase::<N, P>::Init(keys),
            pending,
            CreateInput::Op(CreateOut::CreateOpAction(CreateOpAction::Side(s))),
            Cursor::<N, P, Pt>::Node(n),
        ) == (CreatePhase::<N, P>::EdgeStart(pending), CreateEffect::<N, P>::Wait),
{
}

} // verus!
