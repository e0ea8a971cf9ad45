use vstd::prelude::*;

use super::cursor::{Cursor, EdgeCursor};
use super::process::same_ends;
use vstd::std_specs::cmp::PartialEqSpec;
use super::status::Status;
use super::types::{AlignCell, CursorUpdate, Port, Side, SidedPort, Step};

verus! {

/// The predicate `pred` gives `accept` on every item it answers for.
pub open spec fn computes<T, F: Fn(&T) -> bool>(pred: F, accept: spec_fn(T) -> bool) -> bool {
    forall|x: T, b: bool| #[trigger] call_ensures(pred, (&x,), b) ==> b == accept(x)
}

/// Accepts every node but `except`, ids compared as `==` says; every node
/// when none is given.
pub open spec fn nodes_but<N: PartialEq>(except: Option<N>) -> spec_fn(N) -> bool {
    |m: N|
        match except {
            Some(n) => !m.eq_spec(&n),
            None => true,
        }
}

/// Accepts every edge but one joining the ends of `except`; every edge when
/// none is given.
pub open spec fn edges_but<N: PartialEq, P: PartialEq>(except: Option<EdgeCursor<N, P>>) -> spec_fn(
    EdgeCursor<N, P>,
) -> bool {
    |x: EdgeCursor<N, P>|
        match except {
            Some(e) => !same_ends(x, e),
            None => true,
        }
}

/// The types a graph widget works with.
pub trait GraphWidgetTypes {
    type NodeId: Copy + Eq;
    type PortId: Copy + Eq;
    /// Where the cursor is, in the widget's own terms.
    type Cell;
    type Point: Copy;
    type NodeKind: Clone;
}

/// What a graph widget answers about its graph and does with its cursor.
/// Each answer is a function of the widget's state and the question.
pub trait CursorOps: GraphWidgetTypes + Sized {
    spec fn spec_nearest_port(&self, node: Self::NodeId, side: Side, cell: Self::Cell) -> Option<Self::PortId>;

    spec fn spec_step_port_by(&self, port: SidedPort<Self::NodeId, Self::PortId>, count: i32) -> Option<
        (i32, Self::PortId),
    >;

    spec fn spec_nearest_edge(&self, port: SidedPort<Self::NodeId, Self::PortId>, cell: Self::Cell) -> Option<
        EdgeCursor<Self::NodeId, Self::PortId>,
    >;

    spec fn spec_step_edge_by(&self, edge: EdgeCursor<Self::NodeId, Self::PortId>, count: i32) -> Option<
        (i32, Port<Self::NodeId, Self::PortId>),
    >;

    spec fn spec_step_point_by(&self, point: Self::Point, step: Step, count: u32) -> Self::Point;

    spec fn spec_cell_of(&self, cursor: Cursor<Self::NodeId, Self::PortId, Self::Point>) -> Self::Cell;

    spec fn spec_align(
        &self,
        cell: Self::Cell,
        cursor: Cursor<Self::NodeId, Self::PortId, Self::Point>,
        align: AlignCell,
    ) -> Self::Cell;

    /// Where the cursor starts.
    spec fn spec_default_cursor(&self) -> Cursor<Self::NodeId, Self::PortId, Self::Point>;

    fn default_cursor(&self) -> (r: Cursor<Self::NodeId, Self::PortId, Self::Point>)
        ensures
            r == self.spec_default_cursor(),
    ;

    /// The port on the given side of the node nearest the cell, if any.
    fn nearest_port(&self, node: &Self::NodeId, side: Side, cell: &Self::Cell) -> (r: Option<Self::PortId>)
        ensures
            r == self.spec_nearest_port(*node, side, *cell),
    ;

    /// The port `count` ports further along the node's side (negative: back),
    /// with the number of ports actually stepped, if there is one.
    fn step_port_by(&self, port: &SidedPort<Self::NodeId, Self::PortId>, count: i32) -> (r: Option<
        (i32, Self::PortId),
    >)
        ensures
            r == self.spec_step_port_by(*port, count),
    ;

    /// The edge at the port nearest the cell, if any.
    fn nearest_edge(&self, port: &SidedPort<Self::NodeId, Self::PortId>, cell: &Self::Cell) -> (r: Option<
        EdgeCursor<Self::NodeId, Self::PortId>,
    >)
        ensures
            r == self.spec_nearest_edge(*port, *cell),
    ;

    /// The free port of the edge `count` edges further along its anchor
    /// port, with the number of edges actually stepped, if there is one.
    fn step_edge_by(&self, edge: &EdgeCursor<Self::NodeId, Self::PortId>, count: i32) -> (r: Option<
        (i32, Port<Self::NodeId, Self::PortId>),
    >)
        ensures
            r == self.spec_step_edge_by(*edge, count),
    ;

    fn step_point_by(&self, point: &Self::Point, step: Step, count: u32) -> (r: Self::Point)
        ensures
            r == self.spec_step_point_by(*point, step, count),
    ;

    /// The cell a cursor stands in.
    fn cell_of(&self, cursor: &Cursor<Self::NodeId, Self::PortId, Self::Point>) -> (r: Self::Cell)
        ensures
            r == self.spec_cell_of(*cursor),
    ;

    /// Moves the cell to where the cursor is, keeping its row or column as
    /// `align` says.
    fn align_to_cursor(
        &self,
        cell: &mut Self::Cell,
        cursor: &Cursor<Self::NodeId, Self::PortId, Self::Point>,
        align: AlignCell,
    )
        ensures
            *final(cell) == self.spec_align(*old(cell), *cursor, align),
    ;

    spec fn spec_position(&self, cell: Self::Cell) -> Self::Point;

    /// The node nearest the cell other than `except` (any node when none
    /// is given), if there is one.
    spec fn spec_nearest_node_except(&self, cell: Self::Cell, except: Option<Self::NodeId>) -> Option<Self::NodeId>;

    /// The edge at the port nearest the cell other than one joining the
    /// ends of `except` (any edge when none is given), if there is one.
    spec fn spec_nearest_edge_except(
        &self,
        port: SidedPort<Self::NodeId, Self::PortId>,
        cell: Self::Cell,
        except: Option<EdgeCursor<Self::NodeId, Self::PortId>>,
    ) -> Option<EdgeCursor<Self::NodeId, Self::PortId>>;

    /// The node nearest the cell that `pred` accepts, if any: where `pred`
    /// accepts every node but one (or every node), the widget's answer for
    /// that node.
    fn nearest_node_where<F: Fn(&Self::NodeId) -> bool>(&self, cell: &Self::Cell, pred: F) -> (r: Option<Self::NodeId>)
        requires
            forall|n: &Self::NodeId| call_requires(pred, (n,)),
        ensures
            r matches Some(n) ==> call_ensures(pred, (&n,), true),
            forall|except: Option<Self::NodeId>|
                computes(pred, nodes_but(except)) ==> r == #[trigger] self.spec_nearest_node_except(*cell, except),
    ;

    /// The edge at the port nearest the cell that `pred` accepts, if any:
    /// where `pred` accepts every edge but one (or every edge), the
    /// widget's answer for that edge.
    fn nearest_edge_where<F: Fn(&EdgeCursor<Self::NodeId, Self::PortId>) -> bool>(
        &self,
        port: &SidedPort<Self::NodeId, Self::PortId>,
        cell: &Self::Cell,
        pred: F,
    ) -> (r: Option<EdgeCursor<Self::NodeId, Self::PortId>>)
        requires
            forall|e: &EdgeCursor<Self::NodeId, Self::PortId>| call_requires(pred, (e,)),
        ensures
            r matches Some(e) ==> call_ensures(pred, (&e,), true),
            forall|except: Option<EdgeCursor<Self::NodeId, Self::PortId>>|
                computes(pred, edges_but(except)) ==> r == #[trigger] self.spec_nearest_edge_except(*port, *cell, except),
    ;

    /// The point a cell stands for.
    fn position(&self, cell: &Self::Cell) -> (r: Self::Point)
        ensures
            r == self.spec_position(*cell),
    ;

    /// The widget after it showed the cursor.
    spec fn spec_update_cursor(&self, update: CursorUpdate, cursor: Cursor<Self::NodeId, Self::PortId, Self::Point>) -> Self;

    /// Shows the cursor after it changed.
    fn update_cursor(&mut self, update: CursorUpdate, cursor: &Cursor<Self::NodeId, Self::PortId, Self::Point>)
        ensures
            *final(self) == old(self).spec_update_cursor(update, *cursor),
    ;
}

/// How a graph widget edits its edges. Each edit's outcome is a function
/// of the widget's state and the edit.
pub trait EdgeOps: GraphWidgetTypes + Sized {
    /// The widget after it created the edge.
    spec fn spec_create_edge(&self, from: Port<Self::NodeId, Self::PortId>, to: Port<Self::NodeId, Self::PortId>) -> Self;

    /// The widget after it was asked to delete the edge, and whether there
    /// was one.
    spec fn spec_delete_edge(&self, from: Port<Self::NodeId, Self::PortId>, to: Port<Self::NodeId, Self::PortId>) -> (
        Self,
        bool,
    );

    fn create_edge(&mut self, from: Port<Self::NodeId, Self::PortId>, to: Port<Self::NodeId, Self::PortId>)
        ensures
            *final(self) == old(self).spec_create_edge(from, to),
    ;

    /// Deletes the edge; tells whether there was one.
    fn delete_edge(&mut self, from: &Port<Self::NodeId, Self::PortId>, to: &Port<Self::NodeId, Self::PortId>) -> (r:
        bool)
        ensures
            (*final(self), r) == old(self).spec_delete_edge(*from, *to),
    ;
}

/// How a graph widget edits its nodes. Each edit's outcome is a function
/// of the widget's state and the edit.
pub trait NodeOps: GraphWidgetTypes + Sized {
    /// The widget after it created the node.
    spec fn spec_create_node(&self, kind: Self::NodeKind, position: Self::Point) -> Self;

    /// The widget after it was asked to nudge the node, and whether the node
    /// moved.
    spec fn spec_nudge_node(&self, node: Self::NodeId, step: Step, count: u32) -> (Self, bool);

    /// The widget after it was asked to delete the node, and whether there
    /// was one.
    spec fn spec_delete_node(&self, node: Self::NodeId) -> (Self, bool);

    fn create_node(&mut self, kind: Self::NodeKind, position: Self::Point)
        ensures
            *final(self) == old(self).spec_create_node(kind, position),
    ;

    /// Moves the node `count` cells in the step's direction; tells whether
    /// it moved.
    fn nudge_node(&mut self, node: &Self::NodeId, step: Step, count: u32) -> (r: bool)
        ensures
            (*final(self), r) == old(self).spec_nudge_node(*node, step, count),
    ;

    /// Deletes the node; tells whether there was one.
    fn delete_node(&mut self, node: &Self::NodeId) -> (r: bool)
        ensures
            (*final(self), r) == old(self).spec_delete_node(*node),
    ;
}

/// What a graph widget shows of the editor besides the graph. Each change
/// is a function of the widget's state and what is shown.
pub trait UiOps: GraphWidgetTypes + Sized {
    /// The widget after it showed the status.
    spec fn spec_update_status(&self, status: Status) -> Self;

    /// The widget after it was asked to quit.
    spec fn spec_quit(&self) -> Self;

    fn update_status(&mut self, status: Status)
        ensures
            *final(self) == old(self).spec_update_status(status),
    ;

    fn quit(&mut self)
        ensures
            *final(self) == old(self).spec_quit(),
    ;
}

/// A graph widget the editor can drive: it answers about its graph and
/// cursor, edits its edges and nodes, and shows the editor's status.
pub trait GraphWidget: GraphWidgetTypes + CursorOps + EdgeOps + NodeOps + UiOps {

}

impl<T: GraphWidgetTypes + CursorOps + EdgeOps + NodeOps + UiOps> GraphWidget for T {

}

} // verus!
