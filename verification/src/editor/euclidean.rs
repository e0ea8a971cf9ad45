use vstd::prelude::*;

use super::cursor::Cursor;
use super::types::{AlignCell, Port, Side, SidedPort};
use super::widget::GraphWidgetTypes;
use vstd::std_specs::cmp::PartialEqSpec;

verus! {

/// What a euclidean cell is placed relative to.
#[derive(Debug, Clone, Copy)]
pub enum Anchor<N, P> {
    Fixed,
    Node(N),
    Port(SidedPort<N, P>),
    Edge(Port<N, P>, Port<N, P>),
}

/// How a euclidean cell came to where it is.
#[derive(Debug, Clone, Copy, PartialEq, Eq, Hash, Structural)]
pub enum State {
    Init,
    /// The cell is for a node cursor.
    Node1,
    /// The cell is for a node cursor, and so was the cell before it.
    Node2,
}

impl Default for State {
    fn default() -> (r: Self)
        ensures
            r == State::Init,
    {
        State::Init
    }
}

/// A cell of a graph widget laid out in the plane: an anchor with an
/// offset from it, and the anchors and offsets of the last port and edge
/// the cursor stood on, for moving back to them.
#[derive(Debug, Clone, Copy)]
pub struct Cell<N, P, V> {
    pub saved_port: Option<(Side, Anchor<N, P>, V)>,
    pub saved_edge: Option<(Anchor<N, P>, V)>,
    pub state: State,
    pub anchor: Anchor<N, P>,
    pub offset: V,
}

/// A graph widget laid out in the plane, with points, vectors and the
/// scalars of their coordinates. Each answer is a function of the widget's
/// state and the question.
pub trait GraphEuclidean: GraphWidgetTypes + Sized {
    type Scalar: Copy;
    type Vector: Copy;

    spec fn spec_zero_vec() -> Self::Vector;

    spec fn spec_vec_coords(v: Self::Vector) -> (Self::Scalar, Self::Scalar);

    spec fn spec_point_coords(p: Self::Point) -> (Self::Scalar, Self::Scalar);

    spec fn spec_vec(coords: (Self::Scalar, Self::Scalar)) -> Self::Vector;

    /// The point `p` moved by `v`.
    spec fn spec_point_add(p: Self::Point, v: Self::Vector) -> Self::Point;

    /// The point `p` moved back by `v`.
    spec fn spec_point_sub(p: Self::Point, v: Self::Vector) -> Self::Point;

    spec fn spec_scalar_add(a: Self::Scalar, b: Self::Scalar) -> Self::Scalar;

    spec fn spec_anchor_point(&self, anchor: Anchor<Self::NodeId, Self::PortId>) -> Self::Point;

    /// A vector is made back from its coordinates.
    proof fn lemma_vec_of_coords(v: Self::Vector)
        ensures
            Self::spec_vec(Self::spec_vec_coords(v)) == v,
    ;

    /// The vector of no length.
    fn zero_vec() -> (r: Self::Vector)
        ensures
            r == Self::spec_zero_vec(),
    ;

    fn vec_coords(v: Self::Vector) -> (r: (Self::Scalar, Self::Scalar))
        ensures
            r == Self::spec_vec_coords(v),
    ;

    fn point_coords(p: Self::Point) -> (r: (Self::Scalar, Self::Scalar))
        ensures
            r == Self::spec_point_coords(p),
    ;

    fn vec(coords: (Self::Scalar, Self::Scalar)) -> (r: Self::Vector)
        ensures
            r == Self::spec_vec(coords),
    ;

    fn point_add(p: Self::Point, v: Self::Vector) -> (r: Self::Point)
        ensures
            r == Self::spec_point_add(p, v),
    ;

    fn point_sub(p: Self::Point, v: Self::Vector) -> (r: Self::Point)
        ensures
            r == Self::spec_point_sub(p, v),
    ;

    fn scalar_add(a: Self::Scalar, b: Self::Scalar) -> (r: Self::Scalar)
        ensures
            r == Self::spec_scalar_add(a, b),
    ;

    /// Where an anchor stands.
    fn anchor_point(&self, anchor: &Anchor<Self::NodeId, Self::PortId>) -> (r: Self::Point)
        ensures
            r == self.spec_anchor_point(*anchor),
    ;
}

/// The vector from the origin to a point.
pub open spec fn spec_point_vec<W: GraphEuclidean>(p: W::Point) -> W::Vector {
    W::spec_vec(W::spec_point_coords(p))
}

/// The vector from the origin to a point.
pub fn point_vec<W: GraphEuclidean>(p: W::Point) -> (r: W::Vector)
    ensures
        r == spec_point_vec::<W>(p),
{
    W::vec(W::point_coords(p))
}

/// Node and port ids compare as their `==` says.
pub open spec fn ids_compare<N: PartialEq, P: PartialEq>() -> bool {
    N::obeys_eq_spec() && P::obeys_eq_spec()
}

/// Two anchors are the same, their ids compared as `==` says.
pub open spec fn same_anchor<N: PartialEq, P: PartialEq>(a: Anchor<N, P>, b: Anchor<N, P>) -> bool {
    match (a, b) {
        (Anchor::Fixed, Anchor::Fixed) => true,
        (Anchor::Node(x), Anchor::Node(y)) => x.eq_spec(&y),
        (Anchor::Port(x), Anchor::Port(y)) => x.0 == y.0 && x.1.0.eq_spec(&y.1.0) && x.1.1.eq_spec(&y.1.1),
        (Anchor::Edge(f, t), Anchor::Edge(g, u)) => f.0.eq_spec(&g.0) && f.1.eq_spec(&g.1) && t.0.eq_spec(&u.0)
            && t.1.eq_spec(&u.1),
        _ => false,
    }
}

fn same_port<N: PartialEq, P: PartialEq>(a: &Port<N, P>, b: &Port<N, P>) -> (r: bool)
    ensures
        ids_compare::<N, P>() ==> r == (a.0.eq_spec(&b.0) && a.1.eq_spec(&b.1)),
{
    a.0 == b.0 && a.1 == b.1
}

impl<N: PartialEq, P: PartialEq> Anchor<N, P> {
    /// Whether two anchors are the same, comparing ids with `==`.
    pub fn same(&self, other: &Self) -> (r: bool)
        ensures
            ids_compare::<N, P>() ==> r == same_anchor(*self, *other),
    {
        match (self, other) {
            (Anchor::Fixed, Anchor::Fixed) => true,
            (Anchor::Node(x), Anchor::Node(y)) => *x == *y,
            (Anchor::Port(x), Anchor::Port(y)) => x.0 == y.0 && same_port(&x.1, &y.1),
            (Anchor::Edge(f, t), Anchor::Edge(g, u)) => same_port(f, g) && same_port(t, u),
            _ => false,
        }
    }
}

/// The cell a cursor stands in when nothing came before it: at a node or
/// a port or an edge with no offset (a port or an edge saved as the last
/// one), or at a point as an offset from the origin.
pub open spec fn cell_of_cursor<W: GraphEuclidean>(cursor: Cursor<W::NodeId, W::PortId, W::Point>) -> Cell<
    W::NodeId,
    W::PortId,
    W::Vector,
> {
    let zero = W::spec_zero_vec();
    match cursor {
        Cursor::Node(n) => Cell {
            saved_port: None,
            saved_edge: None,
            state: State::Node1,
            anchor: Anchor::Node(n),
            offset: zero,
        },
        Cursor::Port(p) => Cell {
            saved_port: Some((p.0, Anchor::Port(p), zero)),
            saved_edge: None,
            state: State::Init,
            anchor: Anchor::Port(p),
            offset: zero,
        },
        Cursor::Edge(e) => Cell {
            saved_port: None,
            saved_edge: Some((Anchor::Edge(e.from, e.to), zero)),
            state: State::Init,
            anchor: Anchor::Edge(e.from, e.to),
            offset: zero,
        },
        Cursor::FixedPoint(p) => Cell {
            saved_port: None,
            saved_edge: None,
            state: State::Init,
            anchor: Anchor::Fixed,
            offset: spec_point_vec::<W>(p),
        },
    }
}

/// The state after a move: a node after a node is [`State::Node2`];
/// otherwise the state of where the cursor went.
pub open spec fn next_state(old: State, new: State) -> State {
    if (old == State::Node1 || old == State::Node2) && new == State::Node1 {
        State::Node2
    } else {
        new
    }
}

/// How far apart two anchors are, as coordinates: nothing for the same
/// anchor, otherwise the first's point less the second's.
pub open spec fn anchor_diff<W: GraphEuclidean>(
    w: W,
    from: Anchor<W::NodeId, W::PortId>,
    to: Anchor<W::NodeId, W::PortId>,
    same: bool,
) -> (W::Scalar, W::Scalar) {
    if same {
        W::spec_vec_coords(W::spec_zero_vec())
    } else {
        W::spec_point_coords(W::spec_point_sub(w.spec_anchor_point(from), spec_point_vec::<W>(w.spec_anchor_point(to))))
    }
}

/// The cell moved to the cursor, `same` telling whether the cursor's anchor
/// is the cell's: it takes the cursor's anchor and state (see
/// [`next_state`]); overwriting forgets the saved port and edge and takes
/// the cursor's offset; otherwise a second node in a row forgets the saved
/// port, and any other move saves the port or edge the cursor is on, and
/// the offset keeps its row (or column) shifted by how far the anchors are
/// apart, taking the other coordinate from the cursor.
pub open spec fn aligned_cell<W: GraphEuclidean>(
    w: W,
    cell: Cell<W::NodeId, W::PortId, W::Vector>,
    cursor: Cursor<W::NodeId, W::PortId, W::Point>,
    align: AlignCell,
    same: bool,
) -> Cell<W::NodeId, W::PortId, W::Vector> {
    let new = cell_of_cursor::<W>(cursor);
    let state = next_state(cell.state, new.state);
    let saved = if align == AlignCell::Overwrite {
        (None, None)
    } else if state == State::Node2 && cursor is Node {
        (None, cell.saved_edge)
    } else {
        (
            if new.saved_port is Some {
                new.saved_port
            } else {
                cell.saved_port
            },
            if new.saved_edge is Some {
                new.saved_edge
            } else {
                cell.saved_edge
            },
        )
    };
    let n = W::spec_vec_coords(new.offset);
    let o = W::spec_vec_coords(cell.offset);
    let d = anchor_diff(w, cell.anchor, new.anchor, same);
    let coords = match align {
        AlignCell::Overwrite => n,
        AlignCell::KeepRow => (n.0, W::spec_scalar_add(o.1, d.1)),
        AlignCell::KeepCol => (W::spec_scalar_add(o.0, d.0), n.1),
    };
    Cell { saved_port: saved.0, saved_edge: saved.1, state, anchor: new.anchor, offset: W::spec_vec(coords) }
}

/// Aligning a cell to a cursor by overwriting takes the cursor's own cell:
/// its anchor and offset, with nothing saved.
pub proof fn lemma_overwrite_takes_cursor_cell<W: GraphEuclidean>(
    w: W,
    cell: Cell<W::NodeId, W::PortId, W::Vector>,
    cursor: Cursor<W::NodeId, W::PortId, W::Point>,
    same: bool,
)
    ensures
        ({
            let r = aligned_cell(w, cell, cursor, AlignCell::Overwrite, same);
            let new = cell_of_cursor::<W>(cursor);
            &&& r.anchor == new.anchor
            &&& r.offset == new.offset
            &&& r.saved_port is None
            &&& r.saved_edge is None
        }),
{
    W::lemma_vec_of_coords(cell_of_cursor::<W>(cursor).offset);
}

impl<N: Copy + PartialEq, P: Copy + PartialEq, V: Copy> Cell<N, P, V> {
    /// The cell a cursor stands in when nothing came before it; see
    /// [`cell_of_cursor`].
    pub fn of_cursor<W: GraphEuclidean<NodeId = N, PortId = P, Vector = V>>(
        widget: &W,
        cursor: &Cursor<N, P, W::Point>,
    ) -> (r: Self)
        ensures
            r == cell_of_cursor::<W>(*cursor),
    {
        match *cursor {
            Cursor::Node(n) => Cell {
                saved_port: None,
                saved_edge: None,
                state: State::Node1,
                anchor: Anchor::Node(n),
                offset: W::zero_vec(),
            },
            Cursor::Port(p) => {
                let anchor = Anchor::Port(p);
                Cell {
                    saved_port: Some((p.0, anchor, W::zero_vec())),
                    saved_edge: None,
                    state: State::Init,
                    anchor,
                    offset: W::zero_vec(),
                }
            },
            Cursor::Edge(e) => {
                let anchor = Anchor::Edge(e.from, e.to);
                let offs = W::zero_vec();
                Cell { saved_port: None, saved_edge: Some((anchor, offs)), state: State::Init, anchor, offset: offs }
            },
            Cursor::FixedPoint(p) => Cell {
                saved_port: None,
                saved_edge: None,
                state: State::Init,
                anchor: Anchor::Fixed,
                offset: point_vec::<W>(p),
            },
        }
    }

    /// Where the cursor goes when it steps onto the given side: the saved
    /// port's anchor and offset if it is on that side, else the cell's own.
    pub fn port_target<W: GraphEuclidean<NodeId = N, PortId = P, Vector = V>>(&self, widget: &W, side: Side) -> (r:
        W::Point)
        ensures
            r == (match self.saved_port {
                Some((s, a, o)) if s == side => W::spec_point_add(widget.spec_anchor_point(a), o),
                _ => W::spec_point_add(widget.spec_anchor_point(self.anchor), self.offset),
            }),
    {
        let (anchor, offset) = match &self.saved_port {
            Some((s, a, o)) => {
                if *s == side {
                    (a, o)
                } else {
                    (&self.anchor, &self.offset)
                }
            },
            None => (&self.anchor, &self.offset),
        };
        W::point_add(widget.anchor_point(anchor), *offset)
    }

    /// Where the cursor goes when it steps onto an edge: the saved edge's
    /// anchor and offset if there is one, else the cell's own.
    pub fn edge_target<W: GraphEuclidean<NodeId = N, PortId = P, Vector = V>>(&self, widget: &W) -> (r: W::Point)
        ensures
            r == (match self.saved_edge {
                Some((a, o)) => W::spec_point_add(widget.spec_anchor_point(a), o),
                None => W::spec_point_add(widget.spec_anchor_point(self.anchor), self.offset),
            }),
    {
        let (anchor, offset) = match &self.saved_edge {
            Some((a, o)) => (a, o),
            None => (&self.anchor, &self.offset),
        };
        W::point_add(widget.anchor_point(anchor), *offset)
    }

    /// Moves the cell to the cursor; see [`aligned_cell`]. Whether the
    /// anchors are the same is told by comparing ids with `==`.
    pub fn align_to_cursor<W: GraphEuclidean<NodeId = N, PortId = P, Vector = V>>(
        &mut self,
        widget: &W,
        cursor: &Cursor<N, P, W::Point>,
        align: AlignCell,
    )
        ensures
            ids_compare::<N, P>() ==> *final(self) == aligned_cell(
                *widget,
                *old(self),
                *cursor,
                align,
                same_anchor(cell_of_cursor::<W>(*cursor).anchor, old(self).anchor),
            ),
            *final(self) == aligned_cell(*widget, *old(self), *cursor, align, true) || *final(self)
                == aligned_cell(*widget, *old(self), *cursor, align, false),
    {
        let new = Self::of_cursor(widget, cursor);
        let same = new.anchor.same(&self.anchor);
        let state = match (self.state, new.state) {
            (State::Node1, State::Node1) => State::Node2,
            (State::Node2, State::Node1) => State::Node2,
            (_, s) => s,
        };
        let is_node = match cursor {
            Cursor::Node(_) => true,
            _ => false,
        };
        let overwrite = match align {
            AlignCell::Overwrite => true,
            _ => false,
        };
        if overwrite {
            self.saved_port = None;
            self.saved_edge = None;
        } else if state == State::Node2 && is_node {
            self.saved_port = None;
        } else {
            if let Some(c) = new.saved_port {
                self.saved_port = Some(c);
            }
            if let Some(c) = new.saved_edge {
                self.saved_edge = Some(c);
            }
        }
        self.state = state;
        let (new_x, new_y) = W::vec_coords(new.offset);
        let (x, y) = W::vec_coords(self.offset);
        let coords = match align {
            AlignCell::Overwrite => (new_x, new_y),
            AlignCell::KeepRow => {
                let d = if same {
                    W::vec_coords(W::zero_vec())
                } else {
                    W::point_coords(W::point_sub(widget.anchor_point(&self.anchor), point_vec::<W>(widget.anchor_point(&new.anchor))))
                };
                (new_x, W::scalar_add(y, d.1))
            },
            AlignCell::KeepCol => {
                let d = if same {
                    W::vec_coords(W::zero_vec())
                } else {
                    W::point_coords(W::point_sub(widget.anchor_point(&self.anchor), point_vec::<W>(widget.anchor_point(&new.anchor))))
                };
                (W::scalar_add(x, d.0), new_y)
            },
        };
        self.offset = W::vec(coords);
        self.anchor = new.anchor;
    }
}

} // verus!
