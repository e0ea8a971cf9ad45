use vstd::prelude::*;

use super::actions::{
    count_or_one, CreateEdge, CreateNode, DeleteAtCursor, GoToOpposite, GoToPort, Nudge, Quit, StepCursor, ViewCursor,
};
use super::cursor::{Cursor, EdgeCursor};
use super::motion::{move_cursor, run_moves, CursorMove};
use super::types::{AlignCell, CursorUpdate, Port, Side, SidedPort};
use super::widget::{edges_but, nodes_but, CursorOps, EdgeOps, GraphWidgetTypes, NodeOps, UiOps};
use super::euclidean::ids_compare;
use vstd::std_specs::cmp::PartialEqSpec;

verus! {

impl StepCursor {
    /// Steps the cursor `count` times over; see [`run_moves`]. Always
    /// handled.
    pub fn process<W: CursorOps>(
        &self,
        widget: &mut W,
        count: Option<u32>,
        cursor: &mut Cursor<W::NodeId, W::PortId, W::Point>,
        cell: &mut W::Cell,
    ) -> (r: bool)
        requires
            count matches Some(c) ==> c > 0,
        ensures
            r,
            ({
                let m = run_moves(*old(widget), CursorMove::Step(self.0), count_or_one(count), *old(cursor), *old(cell));
                &&& *final(cursor) == m.1
                &&& *final(cell) == m.2
                &&& *final(widget) == if m.0 {
                    old(widget).spec_update_cursor(CursorUpdate::Move, m.1)
                } else {
                    *old(widget)
                }
            }),
    {
        move_cursor(widget, CursorMove::Step(self.0), count, cursor, cell);
        true
    }
}

impl GoToOpposite {
    /// Moves the cursor to the opposite end `count` times over; see
    /// [`run_moves`]. Always handled.
    pub fn process<W: CursorOps>(
        &self,
        widget: &mut W,
        count: Option<u32>,
        cursor: &mut Cursor<W::NodeId, W::PortId, W::Point>,
        cell: &mut W::Cell,
    ) -> (r: bool)
        requires
            count matches Some(c) ==> c > 0,
        ensures
            r,
            ({
                let m = run_moves(*old(widget), CursorMove::Opposite, count_or_one(count), *old(cursor), *old(cell));
                &&& *final(cursor) == m.1
                &&& *final(cell) == m.2
                &&& *final(widget) == if m.0 {
                    old(widget).spec_update_cursor(CursorUpdate::Move, m.1)
                } else {
                    *old(widget)
                }
            }),
    {
        move_cursor(widget, CursorMove::Opposite, count, cursor, cell);
        true
    }
}

impl<N: Copy, P: Copy> GoToPort<N, P> {
    /// Puts the cursor on the port; refused with a count.
    pub fn process<W: CursorOps + GraphWidgetTypes<NodeId = N, PortId = P>>(
        &self,
        widget: &mut W,
        count: Option<u32>,
        cursor: &mut Cursor<N, P, W::Point>,
        cell: &mut W::Cell,
    ) -> (r: bool)
        ensures
            r == count is None,
            count is Some ==> *final(cursor) == *old(cursor) && *final(cell) == *old(cell) && *final(widget) == *old(widget),
            count is None ==> *final(cursor) == Cursor::<N, P, W::Point>::Port(self.0),
            count is None ==> *final(cell) == old(widget).spec_align(*old(cell), Cursor::Port(self.0), AlignCell::Overwrite),
            count is None ==> *final(widget) == old(widget).spec_update_cursor(CursorUpdate::Move, Cursor::Port(self.0)),
    {
        if count.is_some() {
            return false;
        }
        let port = self.0;
        move_cursor(widget, CursorMove::GoTo(port), None, cursor, cell);
        proof {
            let w = *old(widget);
            let c2: Cursor<N, P, W::Point> = Cursor::Port(port);
            assert(run_moves(w, CursorMove::GoTo(port), 0, c2, w.spec_align(*old(cell), c2, AlignCell::Overwrite)).1
                == c2);
        }
        true
    }
}

impl ViewCursor {
    /// Centres the view on the cursor; refused with a count.
    pub fn process<W: CursorOps>(
        &self,
        widget: &mut W,
        count: Option<u32>,
        cursor: &Cursor<W::NodeId, W::PortId, W::Point>,
    ) -> (r: bool)
        ensures
            r == count is None,
            *final(widget) == if r {
                old(widget).spec_update_cursor(CursorUpdate::CenterInView, *cursor)
            } else {
                *old(widget)
            },
    {
        if count.is_some() {
            return false;
        }
        widget.update_cursor(CursorUpdate::CenterInView, cursor);
        true
    }
}

impl Quit {
    /// Asks the widget to quit; refused with a count.
    pub fn process<W: UiOps>(&self, widget: &mut W, count: Option<u32>) -> (r: bool)
        ensures
            r == count is None,
            *final(widget) == if r {
                old(widget).spec_quit()
            } else {
                *old(widget)
            },
    {
        if count.is_some() {
            return false;
        }
        widget.quit();
        true
    }
}

impl Nudge {
    /// Nudges the node under the cursor `count` cells (one when no count is
    /// given); only a node can be nudged. Tells whether it moved.
    pub fn process<W: NodeOps>(
        &self,
        widget: &mut W,
        count: Option<u32>,
        cursor: &Cursor<W::NodeId, W::PortId, W::Point>,
    ) -> (r: bool)
        ensures
            ({
                let (w, moved) = match *cursor {
                    Cursor::Node(n) => old(widget).spec_nudge_node(n, self.0, count_or_one(count)),
                    _ => (*old(widget), false),
                };
                r == moved && *final(widget) == w
            }),
    {
        let count = match count {
            Some(c) => c,
            None => 1,
        };
        match cursor {
            Cursor::Node(node) => widget.nudge_node(node, self.0, count),
            _ => false,
        }
    }
}

impl<N: Copy, P: Copy> CreateEdge<N, P> {
    /// Creates the edge; refused with a count.
    pub fn process<W: EdgeOps + GraphWidgetTypes<NodeId = N, PortId = P>>(&self, widget: &mut W, count: Option<u32>) -> (r:
        bool)
        ensures
            r == count is None,
            *final(widget) == if r {
                old(widget).spec_create_edge(self.0, self.1)
            } else {
                *old(widget)
            },
    {
        if count.is_some() {
            return false;
        }
        widget.create_edge(self.0, self.1);
        true
    }
}

impl<K: Clone, Pt: Copy> CreateNode<K, Pt> {
    /// Creates a node of a copy of the kind at the point; refused with a
    /// count.
    pub fn process<W: NodeOps + GraphWidgetTypes<NodeKind = K, Point = Pt>>(&self, widget: &mut W, count: Option<
        u32,
    >) -> (r: bool)
        ensures
            r == count is None,
            r ==> exists|k: K| cloned(self.0, k) && *final(widget) == #[trigger] old(widget).spec_create_node(k, self.1),
            !r ==> *final(widget) == *old(widget),
    {
        if count.is_some() {
            return false;
        }
        let kind = self.0.clone();
        widget.create_node(kind, self.1);
        true
    }
}

/// Two edge cursors join the same ports, ids compared as `==` says.
pub open spec fn same_ends<N: PartialEq, P: PartialEq>(a: EdgeCursor<N, P>, b: EdgeCursor<N, P>) -> bool {
    &&& a.from.0.eq_spec(&b.from.0)
    &&& a.from.1.eq_spec(&b.from.1)
    &&& a.to.0.eq_spec(&b.to.0)
    &&& a.to.1.eq_spec(&b.to.1)
}

/// A cursor that was on a node or an edge that went away is not on it any
/// more, when ids compare as `==` says.
pub open spec fn moved_off<N: PartialEq, P: PartialEq, Pt>(c: Cursor<N, P, Pt>, c2: Cursor<N, P, Pt>) -> bool {
    ids_compare::<N, P>() ==> match (c, c2) {
        (Cursor::Node(n), Cursor::Node(m)) => !m.eq_spec(&n),
        (Cursor::Edge(e), Cursor::Edge(e2)) => !same_ends(e2, e),
        _ => true,
    }
}

/// The port an edge cursor is anchored at, on its side.
pub open spec fn anchored_port<N, P>(e: EdgeCursor<N, P>) -> SidedPort<N, P> {
    match e.anchor {
        Side::In => SidedPort(Side::Out, e.from),
        Side::Out => SidedPort(Side::In, e.to),
    }
}

/// Where the cursor goes when what it was on is gone: the node the widget
/// finds nearest the cell (other than `deleted`, if given), or the cell's
/// point when there is none.
pub open spec fn missing_target<W: CursorOps>(w: W, cell: W::Cell, deleted: Option<W::NodeId>) -> Cursor<
    W::NodeId,
    W::PortId,
    W::Point,
> {
    match w.spec_nearest_node_except(cell, deleted) {
        Some(m) => Cursor::Node(m),
        None => Cursor::FixedPoint(w.spec_position(cell)),
    }
}

/// Where a cursor on a deleted node or edge goes: off a node as
/// [`missing_target`] says; off an edge to the edge the widget finds
/// nearest the cell at the anchored port, other than the deleted one, or
/// else as off a node. A port or a point does not move.
pub open spec fn fixup_target<W: CursorOps>(
    w: W,
    cursor: Cursor<W::NodeId, W::PortId, W::Point>,
    cell: W::Cell,
) -> Option<Cursor<W::NodeId, W::PortId, W::Point>> {
    match cursor {
        Cursor::Node(n) => Some(missing_target(w, cell, Some(n))),
        Cursor::Edge(e) => Some(
            match w.spec_nearest_edge_except(anchored_port(e), cell, Some(e)) {
                Some(x) => Cursor::Edge(x),
                None => missing_target(w, cell, None),
            },
        ),
        _ => None,
    }
}

/// Where the cursor goes when what it was on is deleted: the node nearest
/// the cell other than `deleted`, or the cell's point when there is none.
fn fixup_cursor_missing<W: CursorOps>(
    widget: &W,
    cell: &W::Cell,
    deleted: Option<W::NodeId>,
) -> (r: Cursor<W::NodeId, W::PortId, W::Point>)
    ensures
        r is Node || r == Cursor::<W::NodeId, W::PortId, W::Point>::FixedPoint(widget.spec_position(*cell)),
        ids_compare::<W::NodeId, W::PortId>() ==> (deleted matches Some(n) ==> (r matches Cursor::Node(m) ==> !m.eq_spec(
            &n,
        ))),
        (deleted is None || ids_compare::<W::NodeId, W::PortId>()) ==> r == missing_target(*widget, *cell, deleted),
{
    let found = match deleted {
        Some(n) => {
            let other = |m: &W::NodeId| -> (b: bool)
                ensures
                    ids_compare::<W::NodeId, W::PortId>() ==> b == !m.eq_spec(&n),
                {
                    *m != n
                };
            proof {
                if ids_compare::<W::NodeId, W::PortId>() {
                    assert forall|x: W::NodeId, b: bool| #[trigger] call_ensures(other, (&x,), b) implies b
                        == nodes_but(Some(n))(x) by {}
                }
            }
            widget.nearest_node_where(cell, other)
        },
        None => {
            let all = |_m: &W::NodeId| -> (b: bool)
                ensures
                    b,
                {
                    true
                };
            proof {
                assert forall|x: W::NodeId, b: bool| #[trigger] call_ensures(all, (&x,), b) implies b == nodes_but::<
                    W::NodeId,
                >(None)(x) by {}
            }
            widget.nearest_node_where(cell, all)
        },
    };
    match found {
        Some(n) => Cursor::Node(n),
        None => Cursor::FixedPoint(widget.position(cell)),
    }
}

/// Where the cursor goes when what it is on is deleted, if it moves: off a
/// deleted node to the nearest other node (or the cell's point); off a
/// deleted edge to the nearest other edge at the anchored end (or as for a
/// node). A port or a point stays. See [`fixup_target`].
fn fixup_cursor<W: CursorOps>(
    widget: &W,
    cursor: &Cursor<W::NodeId, W::PortId, W::Point>,
    cell: &W::Cell,
) -> (r: Option<Cursor<W::NodeId, W::PortId, W::Point>>)
    ensures
        (cursor is Port || cursor is FixedPoint) ==> r is None,
        cursor is Node ==> (r matches Some(c) && (c is Node || c == Cursor::<W::NodeId, W::PortId, W::Point>::FixedPoint(
            widget.spec_position(*cell),
        ))),
        cursor is Edge ==> (r matches Some(c) && (c is Node || c is Edge || c == Cursor::<
            W::NodeId,
            W::PortId,
            W::Point,
        >::FixedPoint(widget.spec_position(*cell)))),
        r matches Some(c) ==> moved_off(*cursor, c),
        ids_compare::<W::NodeId, W::PortId>() ==> r == fixup_target(*widget, *cursor, *cell),
{
    match *cursor {
        Cursor::Node(n) => Some(fixup_cursor_missing(widget, cell, Some(n))),
        Cursor::Port(_) => None,
        Cursor::Edge(EdgeCursor { from, to, anchor }) => {
            let at = match anchor {
                Side::In => SidedPort(Side::Out, from),
                Side::Out => SidedPort(Side::In, to),
            };
            let gone = EdgeCursor { from, to, anchor };
            let other = |e: &EdgeCursor<W::NodeId, W::PortId>| -> (b: bool)
                ensures
                    ids_compare::<W::NodeId, W::PortId>() ==> b == !same_ends(*e, gone),
                {
                    !(e.from.0 == from.0 && e.from.1 == from.1 && e.to.0 == to.0 && e.to.1 == to.1)
                };
            proof {
                if ids_compare::<W::NodeId, W::PortId>() {
                    assert forall|x: EdgeCursor<W::NodeId, W::PortId>, b: bool| #[trigger] call_ensures(
                        other,
                        (&x,),
                        b,
                    ) implies b == edges_but(Some(gone))(x) by {}
                }
                assert(at == anchored_port(gone));
            }
            let next = widget.nearest_edge_where(&at, cell, other);
            match next {
                Some(next) => Some(Cursor::Edge(next)),
                None => Some(fixup_cursor_missing(widget, cell, None)),
            }
        },
        Cursor::FixedPoint(_) => None,
    }
}

impl DeleteAtCursor {
    /// Deletes the node or the edge under the cursor and moves the cursor
    /// off it (see [`fixup_cursor`]): to a node or an edge the widget finds
    /// near the cell, or else to the point the cell stood for before the
    /// deletion. Refused with a count, and on a port or a point. Tells
    /// whether anything was deleted.
    pub fn process<W: CursorOps + EdgeOps + NodeOps>(
        &self,
        widget: &mut W,
        count: Option<u32>,
        cursor: &mut Cursor<W::NodeId, W::PortId, W::Point>,
        cell: &mut W::Cell,
    ) -> (r: bool)
        ensures
            ({
                let (w, deleted) = if count is Some {
                    (*old(widget), false)
                } else {
                    match *old(cursor) {
                        Cursor::Node(n) => old(widget).spec_delete_node(n),
                        Cursor::Edge(e) => old(widget).spec_delete_edge(e.from, e.to),
                        _ => (*old(widget), false),
                    }
                };
                &&& r == deleted
                &&& !r ==> *final(cursor) == *old(cursor) && *final(cell) == *old(cell) && *final(widget) == w
                &&& r ==> *final(cell) == w.spec_align(*old(cell), *final(cursor), AlignCell::Overwrite)
                &&& r ==> *final(widget) == w.spec_update_cursor(CursorUpdate::Move, *final(cursor))
                &&& r ==> (*final(cursor) is Node || *final(cursor) is FixedPoint || (*old(cursor) is Edge
                    && *final(cursor) is Edge))
                &&& r ==> moved_off(*old(cursor), *final(cursor))
                &&& r ==> (*final(cursor) matches Cursor::FixedPoint(pt) ==> pt == old(widget).spec_position(
                    *old(cell),
                ))
                &&& r && ids_compare::<W::NodeId, W::PortId>() ==> Some(*final(cursor)) == fixup_target(
                    *old(widget),
                    *old(cursor),
                    *old(cell),
                )
            }),
    {
        if count.is_some() {
            return false;
        }
        let fixed = fixup_cursor(widget, cursor, cell);
        let changed = match *cursor {
            Cursor::Node(n) => widget.delete_node(&n),
            Cursor::Edge(e) => widget.delete_edge(&e.from, &e.to),
            Cursor::Port(_) => false,
            Cursor::FixedPoint(_) => false,
        };
        if !changed {
            return false;
        }
        match fixed {
            Some(c) => {
                *cursor = c;
                widget.align_to_cursor(cell, &c, AlignCell::Overwrite);
                widget.update_cursor(CursorUpdate::Move, &c);
            },
            None => {},
        }
        true
    }
}

} // verus!
