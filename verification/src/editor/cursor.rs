use vstd::prelude::*;

use super::types::{Port, Side, SidedPort};

verus! {

/// A cursor on an edge: its two ports and the side the cursor is anchored
/// on (`In` anchors at the source port, `Out` at the target port).
#[derive(Debug, Clone, Copy, PartialEq, Eq, Hash)]
pub struct EdgeCursor<N, P> {
    pub from: Port<N, P>,
    pub to: Port<N, P>,
    pub anchor: Side,
}

impl<N: Copy, P: Copy> EdgeCursor<N, P> {
    /// The anchored port, seen from the node it belongs to.
    pub open spec fn spec_anchor_port(self) -> SidedPort<N, P> {
        SidedPort(
            self.anchor.spec_flip(),
            match self.anchor {
                Side::In => self.from,
                Side::Out => self.to,
            },
        )
    }

    /// The port at the other end of the edge.
    pub open spec fn spec_free_port(self) -> Port<N, P> {
        match self.anchor {
            Side::In => self.to,
            Side::Out => self.from,
        }
    }

    /// A cursor on the edge between `port` and `opp`, anchored at `port`.
    pub fn new(port: SidedPort<N, P>, opp: Port<N, P>) -> (r: Self)
        ensures
            r.anchor == port.0.spec_flip(),
            port.0 == Side::In ==> r.from == opp && r.to == port.1,
            port.0 == Side::Out ==> r.from == port.1 && r.to == opp,
    {
        let SidedPort(side, port) = port;
        let (from, to) = match side {
            Side::In => (opp, port),
            Side::Out => (port, opp),
        };
        Self { from, to, anchor: side.flip() }
    }

    pub fn anchor_port(&self) -> (r: (Side, &Port<N, P>))
        ensures
            r.0 == self.spec_anchor_port().0,
            *r.1 == self.spec_anchor_port().1,
    {
        (
            self.anchor.flip(),
            match self.anchor {
                Side::In => &self.from,
                Side::Out => &self.to,
            },
        )
    }

    pub fn free_port(&self) -> (r: &Port<N, P>)
        ensures
            *r == self.spec_free_port(),
    {
        match self.anchor {
            Side::In => &self.to,
            Side::Out => &self.from,
        }
    }

    /// The port on the `want` side of the edge (the source for `In`, the
    /// target for `Out`), seen from its own node.
    pub open spec fn spec_into_port(self, want: Side) -> SidedPort<N, P> {
        SidedPort(
            want.spec_flip(),
            match want {
                Side::In => self.from,
                Side::Out => self.to,
            },
        )
    }

    pub fn into_port(self, want: Side) -> (r: SidedPort<N, P>)
        ensures
            r == self.spec_into_port(want),
    {
        SidedPort(
            want.flip(),
            match want {
                Side::In => self.from,
                Side::Out => self.to,
            },
        )
    }

    /// The same edge cursor with its free port replaced by `port`.
    pub open spec fn spec_step(self, port: Port<N, P>) -> Self {
        match self.anchor {
            Side::In => EdgeCursor { from: self.from, to: port, anchor: self.anchor },
            Side::Out => EdgeCursor { from: port, to: self.to, anchor: self.anchor },
        }
    }

    /// The same edge cursor with its free port replaced by `port`.
    pub fn step(self, port: Port<N, P>) -> (r: Self)
        ensures
            r == self.spec_step(port),
            r.anchor == self.anchor,
            r.spec_anchor_port() == self.spec_anchor_port(),
            r.spec_free_port() == port,
    {
        let Self { from, to, anchor } = self;
        let (from, to) = match anchor {
            Side::In => (from, port),
            Side::Out => (port, to),
        };
        Self { from, to, anchor }
    }
}

/// Where the cursor is: on a node, a port, an edge, or a free point.
#[derive(Debug, Clone, Copy, PartialEq, Eq, Hash)]
pub enum Cursor<NodeId, PortId, Point> {
    Node(NodeId),
    Port(SidedPort<NodeId, PortId>),
    Edge(EdgeCursor<NodeId, PortId>),
    FixedPoint(Point),
}

/// A cursor made on a port is anchored at that port, and its free end is
/// the other port.
pub proof fn lemma_new_anchor_free<N: Copy, P: Copy>(port: SidedPort<N, P>, opp: Port<N, P>, e: EdgeCursor<N, P>)
    requires
        e.anchor == port.0.spec_flip(),
        port.0 == Side::In ==> e.from == opp && e.to == port.1,
        port.0 == Side::Out ==> e.from == port.1 && e.to == opp,
    ensures
        e.spec_anchor_port() == port,
        e.spec_free_port() == opp,
{
}

/// Leaving an edge towards the side it is anchored on gives the anchored
/// port back.
pub proof fn lemma_into_anchor_side<N: Copy, P: Copy>(e: EdgeCursor<N, P>)
    ensures
        e.spec_into_port(e.anchor) == e.spec_anchor_port(),
{
}

/// Stepping an edge cursor and then leaving it towards its anchor gives the
/// same port as leaving it before the step.
pub proof fn lemma_step_keeps_anchor<N: Copy, P: Copy>(e: EdgeCursor<N, P>, port: Port<N, P>, r: EdgeCursor<N, P>)
    requires
        r.anchor == e.anchor,
        r.spec_anchor_port() == e.spec_anchor_port(),
        r.spec_free_port() == port,
    ensures
        r.spec_into_port(r.anchor) == e.spec_into_port(e.anchor),
        r.spec_into_port(r.anchor.spec_flip()).1 == port,
{
}

} // verus!
