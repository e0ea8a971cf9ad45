use wi_core::editor::cursor::{Cursor, EdgeCursor};
use wi_core::editor::euclidean::{Anchor, Cell, GraphEuclidean, State};
use wi_core::editor::types::{AlignCell, Port, Side, SidedPort};
use wi_core::editor::widget::GraphWidgetTypes;

/// Nodes stand on a grid: node `n` at `(10 n, 0)`; a port at its node
/// moved down by its index, inputs to the left and outputs to the right;
/// an edge halfway between its ends.
struct Plane;

impl GraphWidgetTypes for Plane {
    type NodeId = u32;
    type PortId = u16;
    type Cell = Cell<u32, u16, (i64, i64)>;
    type Point = (i64, i64);
    type NodeKind = u8;
}

fn node_point(n: u32) -> (i64, i64) {
    (n as i64 * 10, 0)
}

fn port_point(side: Side, p: Port<u32, u16>) -> (i64, i64) {
    let (x, y) = node_point(p.0);
    match side {
        Side::In => (x - 1, y + p.1 as i64),
        Side::Out => (x + 1, y + p.1 as i64),
    }
}

impl GraphEuclidean for Plane {
    type Scalar = i64;
    type Vector = (i64, i64);

    fn spec_zero_vec() -> (i64, i64) {
        Self::zero_vec()
    }

    fn spec_vec_coords(v: (i64, i64)) -> (i64, i64) {
        Self::vec_coords(v)
    }

    fn spec_point_coords(p: (i64, i64)) -> (i64, i64) {
        Self::point_coords(p)
    }

    fn spec_vec(coords: (i64, i64)) -> (i64, i64) {
        Self::vec(coords)
    }

    fn lemma_vec_of_coords(v: (i64, i64)) {
        assert_eq!(Self::vec(Self::vec_coords(v)), v);
    }

    fn spec_point_add(p: (i64, i64), v: (i64, i64)) -> (i64, i64) {
        Self::point_add(p, v)
    }

    fn spec_point_sub(p: (i64, i64), v: (i64, i64)) -> (i64, i64) {
        Self::point_sub(p, v)
    }

    fn spec_scalar_add(a: i64, b: i64) -> i64 {
        Self::scalar_add(a, b)
    }

    fn spec_anchor_point(&self, anchor: Anchor<u32, u16>) -> (i64, i64) {
        self.anchor_point(&anchor)
    }

    fn zero_vec() -> (i64, i64) {
        (0, 0)
    }

    fn vec_coords(v: (i64, i64)) -> (i64, i64) {
        v
    }

    fn point_coords(p: (i64, i64)) -> (i64, i64) {
        p
    }

    fn vec(coords: (i64, i64)) -> (i64, i64) {
        coords
    }

    fn point_add(p: (i64, i64), v: (i64, i64)) -> (i64, i64) {
        (p.0 + v.0, p.1 + v.1)
    }

    fn point_sub(p: (i64, i64), v: (i64, i64)) -> (i64, i64) {
        (p.0 - v.0, p.1 - v.1)
    }

    fn scalar_add(a: i64, b: i64) -> i64 {
        a + b
    }

    fn anchor_point(&self, anchor: &Anchor<u32, u16>) -> (i64, i64) {
        match *anchor {
            Anchor::Fixed => (0, 0),
            Anchor::Node(n) => node_point(n),
            Anchor::Port(SidedPort(side, p)) => port_point(side, p),
            Anchor::Edge(f, t) => {
                let a = port_point(Side::Out, f);
                let b = port_point(Side::In, t);
                ((a.0 + b.0) / 2, (a.1 + b.1) / 2)
            },
        }
    }
}

#[test]
fn of_cursor_anchors_each_kind() {
    let w = Plane;
    let c = Cell::of_cursor(&w, &Cursor::Node(2));
    assert!(matches!(c.anchor, Anchor::Node(2)));
    assert_eq!(c.state, State::Node1);
    assert!(c.saved_port.is_none() && c.saved_edge.is_none());
    assert_eq!(c.offset, (0, 0));

    let p = SidedPort(Side::Out, Port(1u32, 3u16));
    let c = Cell::of_cursor(&w, &Cursor::Port(p));
    assert!(matches!(c.saved_port, Some((Side::Out, Anchor::Port(_), (0, 0)))));
    assert_eq!(c.state, State::Init);

    let e = EdgeCursor::new(SidedPort(Side::Out, Port(0u32, 1u16)), Port(1, 1));
    let c = Cell::of_cursor(&w, &Cursor::Edge(e));
    assert!(matches!(c.saved_edge, Some((Anchor::Edge(Port(0, 1), Port(1, 1)), (0, 0)))));

    let c = Cell::<u32, u16, (i64, i64)>::of_cursor(&w, &Cursor::FixedPoint((7, -2)));
    assert!(matches!(c.anchor, Anchor::Fixed));
    assert_eq!(c.offset, (7, -2));
}

#[test]
fn targets_use_saved_places() {
    let w = Plane;
    let mut c = Cell::of_cursor(&w, &Cursor::Port(SidedPort(Side::Out, Port(1u32, 2u16))));
    c.align_to_cursor(&w, &Cursor::Node(1), AlignCell::KeepRow);
    assert!(matches!(c.anchor, Anchor::Node(1)));
    assert_eq!(c.port_target(&w, Side::Out), (11, 2));
    assert_eq!(c.offset, (0, 2));
    assert_eq!(c.port_target(&w, Side::In), (10, 2));
    assert_eq!(c.edge_target(&w), (10, 2));
}

#[test]
fn keep_row_shifts_by_anchor_distance() {
    let w = Plane;
    let mut c = Cell::of_cursor(&w, &Cursor::Port(SidedPort(Side::Out, Port(0u32, 2u16))));
    c.align_to_cursor(&w, &Cursor::Node(1), AlignCell::KeepRow);
    // from the port at (1, 2) to the node at (10, 0): the row stays 2 lower
    assert_eq!(c.offset, (0, 2));
    assert_eq!(c.state, State::Node1);
    assert!(c.saved_port.is_some());
}

#[test]
fn keep_col_shifts_by_anchor_distance() {
    let w = Plane;
    let mut c = Cell::of_cursor(&w, &Cursor::Node(0));
    c.align_to_cursor(&w, &Cursor::Node(2), AlignCell::KeepCol);
    assert_eq!(c.offset, (-20, 0));
    assert_eq!(c.state, State::Node2);
}

#[test]
fn overwrite_forgets_saved_places() {
    let w = Plane;
    let mut c = Cell::of_cursor(&w, &Cursor::Port(SidedPort(Side::In, Port(0u32, 1u16))));
    c.align_to_cursor(&w, &Cursor::FixedPoint((3, 4)), AlignCell::Overwrite);
    assert!(c.saved_port.is_none() && c.saved_edge.is_none());
    assert!(matches!(c.anchor, Anchor::Fixed));
    assert_eq!(c.offset, (3, 4));
}

#[test]
fn second_node_in_a_row_forgets_saved_port() {
    let w = Plane;
    let mut c = Cell::of_cursor(&w, &Cursor::Port(SidedPort(Side::In, Port(0u32, 1u16))));
    c.align_to_cursor(&w, &Cursor::Node(0), AlignCell::KeepRow);
    assert!(c.saved_port.is_some());
    c.align_to_cursor(&w, &Cursor::Node(1), AlignCell::KeepRow);
    assert_eq!(c.state, State::Node2);
    assert!(c.saved_port.is_none());
}

#[test]
fn same_anchor_compares_ids() {
    assert!(Anchor::<u32, u16>::Node(3).same(&Anchor::Node(3)));
    assert!(!Anchor::<u32, u16>::Node(3).same(&Anchor::Node(4)));
    assert!(!Anchor::<u32, u16>::Fixed.same(&Anchor::Node(4)));
    let p = SidedPort(Side::In, Port(1u32, 2u16));
    assert!(Anchor::Port(p).same(&Anchor::Port(p)));
    assert!(!Anchor::Port(p).same(&Anchor::Port(SidedPort(Side::Out, Port(1, 2)))));
}
