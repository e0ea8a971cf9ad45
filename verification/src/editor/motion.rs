use vstd::prelude::*;

use super::actions::count_or_one;
use super::cursor::{Cursor, EdgeCursor};
use super::types::{AlignCell, CursorUpdate, Port, Side, SidedPort, Step};
use super::widget::{CursorOps, GraphWidgetTypes};

verus! {

/// Whether a horizontal step goes right.
pub fn horiz_is_right(step: Step) -> (r: bool)
    requires
        step == Step::Left || step == Step::Right,
    ensures
        r == (step == Step::Right),
{
    match step {
        Step::Left => false,
        Step::Right => true,
        _ => {
            proof {
                assert(false);
            }
            false
        },
    }
}

/// Whether a vertical step goes down.
pub fn vert_is_down(step: Step) -> (r: bool)
    requires
        step == Step::Up || step == Step::Down,
    ensures
        r == (step == Step::Down),
{
    match step {
        Step::Up => false,
        Step::Down => true,
        _ => {
            proof {
                assert(false);
            }
            false
        },
    }
}

/// The side of a node a horizontal step goes towards: out for right, in
/// for left.
pub open spec fn spec_horiz_side(step: Step) -> Side {
    if step == Step::Right {
        Side::Out
    } else {
        Side::In
    }
}

pub fn horiz_side(step: Step) -> (r: Side)
    requires
        step == Step::Left || step == Step::Right,
    ensures
        r == spec_horiz_side(step),
{
    if horiz_is_right(step) {
        Side::Out
    } else {
        Side::In
    }
}

/// A step count as a signed count (capped at `i32::MAX`, negated unless
/// `pos`) and its magnitude.
pub open spec fn spec_signed_steps(pos: bool, steps: u32) -> (i32, u32) {
    let s: i32 = if steps <= i32::MAX {
        steps as i32
    } else {
        i32::MAX
    };
    if pos {
        (s, s as u32)
    } else {
        ((-s) as i32, s as u32)
    }
}

pub fn signed_steps(pos: bool, steps: u32) -> (r: (i32, u32))
    ensures
        r == spec_signed_steps(pos, steps),
        r.1 <= steps,
{
    let s: i32 = if steps <= i32::MAX as u32 {
        steps as i32
    } else {
        i32::MAX
    };
    let signed = if pos {
        s
    } else {
        -s
    };
    let mag: u32 = if signed < 0 {
        (-(signed as i64)) as u32
    } else {
        signed as u32
    };
    (signed, mag)
}

/// How the cursor moves: a step, over to the opposite end of where it is,
/// or straight to a port.
pub enum CursorMove<N, P> {
    Step(Step),
    Opposite,
    GoTo(SidedPort<N, P>),
}

/// How a step keeps the cursor cell: its row for horizontal steps, its
/// column for vertical ones.
pub open spec fn step_align(step: Step) -> AlignCell {
    match step {
        Step::Left | Step::Right => AlignCell::KeepRow,
        Step::Down | Step::Up => AlignCell::KeepCol,
    }
}

/// One step of `steps` from cursor `c` in cell `cell`: how much of the
/// count it used (zero: it could not move) and where the cursor goes.
pub open spec fn step_once<W: CursorOps>(
    w: W,
    step: Step,
    steps: u32,
    c: Cursor<W::NodeId, W::PortId, W::Point>,
    cell: W::Cell,
) -> (u32, Cursor<W::NodeId, W::PortId, W::Point>) {
    let horiz = step == Step::Left || step == Step::Right;
    let down = step == Step::Down;
    match c {
        Cursor::Node(n) => if horiz {
            let side = spec_horiz_side(step);
            match w.spec_nearest_port(n, side, cell) {
                Some(p) => (1, Cursor::Port(SidedPort(side, Port(n, p)))),
                None => (0, Cursor::Node(n)),
            }
        } else {
            (steps, c)
        },
        Cursor::Port(p) => if horiz {
            if spec_horiz_side(step) == p.0 {
                match w.spec_nearest_edge(p, cell) {
                    Some(e) => (1, Cursor::Edge(e)),
                    None => (0, Cursor::Port(p)),
                }
            } else {
                (1, Cursor::Node(p.1.0))
            }
        } else {
            let s = spec_signed_steps(down, steps);
            match w.spec_step_port_by(p, s.0) {
                Some((_, i)) => (s.1, Cursor::Port(SidedPort(p.0, Port(p.1.0, i)))),
                None => (0, Cursor::Port(p)),
            }
        },
        Cursor::Edge(e) => if horiz {
            (1, Cursor::Port(e.spec_into_port(spec_horiz_side(step))))
        } else {
            let s = spec_signed_steps(down, steps);
            match w.spec_step_edge_by(e, s.0) {
                Some((_, p)) => (s.1, Cursor::Edge(e.spec_step(p))),
                None => {
                    let anchor = e.spec_anchor_port();
                    match w.spec_step_port_by(anchor, if down { 1i32 } else { -1i32 }) {
                        Some((_, p)) => match w.spec_nearest_edge(SidedPort(anchor.0, Port(anchor.1.0, p)), cell) {
                            Some(f) => (1, Cursor::Edge(EdgeCursor { from: f.from, to: f.to, anchor: e.anchor })),
                            None => (0, Cursor::Edge(e)),
                        },
                        None => (0, Cursor::Edge(e)),
                    }
                },
            }
        },
        Cursor::FixedPoint(p) => (steps, Cursor::FixedPoint(w.spec_step_point_by(p, step, steps))),
    }
}

/// One move to the opposite end, `count` times over: from a node to its
/// nearest input port; from a port to the nearest port on the other side;
/// from an edge to its other anchor; an even count leaves a port or an
/// edge where it is.
pub open spec fn opposite_once<W: CursorOps>(w: W, count: u32, c: Cursor<W::NodeId, W::PortId, W::Point>) -> (
    u32,
    Cursor<W::NodeId, W::PortId, W::Point>,
) {
    match c {
        Cursor::Node(n) => match w.spec_nearest_port(n, Side::In, w.spec_cell_of(c)) {
            Some(p) => (1, Cursor::Port(SidedPort(Side::In, Port(n, p)))),
            None => (0, c),
        },
        Cursor::Port(p) => if count % 2 == 0 {
            (count, c)
        } else {
            match w.spec_nearest_port(p.1.0, p.0.spec_flip(), w.spec_cell_of(c)) {
                Some(p2) => (count, Cursor::Port(SidedPort(p.0.spec_flip(), Port(p.1.0, p2)))),
                None => (0, c),
            }
        },
        Cursor::Edge(e) => if count % 2 == 0 {
            (count, c)
        } else {
            (count, Cursor::Edge(EdgeCursor { from: e.from, to: e.to, anchor: e.anchor.spec_flip() }))
        },
        Cursor::FixedPoint(_) => (0, c),
    }
}

/// One move of `mv` with `count` left: how much of the count it used, where
/// the cursor goes, and how the cell follows.
pub open spec fn move_once<W: CursorOps>(
    w: W,
    mv: CursorMove<W::NodeId, W::PortId>,
    count: u32,
    c: Cursor<W::NodeId, W::PortId, W::Point>,
    cell: W::Cell,
) -> (u32, Cursor<W::NodeId, W::PortId, W::Point>, AlignCell) {
    match mv {
        CursorMove::Step(s) => {
            let r = step_once(w, s, count, c, cell);
            (r.0, r.1, step_align(s))
        },
        CursorMove::Opposite => {
            let r = opposite_once(w, count, c);
            (r.0, r.1, AlignCell::Overwrite)
        },
        CursorMove::GoTo(p) => (1, Cursor::Port(p), AlignCell::Overwrite),
    }
}

/// Moving `count` times over: each move uses up part of the count and
/// re-aligns the cell, until the count is used up or a move cannot be made
/// (the cursor still takes what that move gives). Tells whether any move
/// was made, and where the cursor and the cell end.
pub open spec fn run_moves<W: CursorOps>(
    w: W,
    mv: CursorMove<W::NodeId, W::PortId>,
    count: u32,
    c: Cursor<W::NodeId, W::PortId, W::Point>,
    cell: W::Cell,
) -> (bool, Cursor<W::NodeId, W::PortId, W::Point>, W::Cell)
    decreases count,
{
    if count == 0 {
        (false, c, cell)
    } else {
        let m = move_once(w, mv, count, c, cell);
        if m.0 == 0 || m.0 > count {
            (false, m.1, cell)
        } else {
            let r = run_moves(w, mv, (count - m.0) as u32, m.1, w.spec_align(cell, m.1, m.2));
            (true, r.1, r.2)
        }
    }
}

fn step_once_exec<W: CursorOps>(
    w: &W,
    step: Step,
    steps: u32,
    c: Cursor<W::NodeId, W::PortId, W::Point>,
    cell: &W::Cell,
) -> (r: (u32, Cursor<W::NodeId, W::PortId, W::Point>))
    ensures
        r == step_once(*w, step, steps, c, *cell),
        r.0 <= steps || r.0 == 1,
{
    let horiz = match step {
        Step::Left | Step::Right => true,
        _ => false,
    };
    match c {
        Cursor::Node(n) => {
            if horiz {
                let side = horiz_side(step);
                match w.nearest_port(&n, side, cell) {
                    Some(p) => (1, Cursor::Port(SidedPort(side, Port(n, p)))),
                    None => (0, Cursor::Node(n)),
                }
            } else {
                (steps, c)
            }
        },
        Cursor::Port(p) => {
            if horiz {
                let side = horiz_side(step);
                if side == p.0 {
                    match w.nearest_edge(&p, cell) {
                        Some(e) => (1, Cursor::Edge(e)),
                        None => (0, Cursor::Port(p)),
                    }
                } else {
                    (1, Cursor::Node(p.1.0))
                }
            } else {
                let (count, n) = signed_steps(vert_is_down(step), steps);
                match w.step_port_by(&p, count) {
                    Some((_, i)) => (n, Cursor::Port(SidedPort(p.0, Port(p.1.0, i)))),
                    None => (0, Cursor::Port(p)),
                }
            }
        },
        Cursor::Edge(e) => {
            if horiz {
                (1, Cursor::Port(e.into_port(horiz_side(step))))
            } else {
                let down = vert_is_down(step);
                let (count, n) = signed_steps(down, steps);
                match w.step_edge_by(&e, count) {
                    Some((_, p)) => (n, Cursor::Edge(e.step(p))),
                    None => {
                        let (side, port) = e.anchor_port();
                        let anchor = SidedPort(side, *port);
                        let by: i32 = if down {
                            1
                        } else {
                            -1
                        };
                        match w.step_port_by(&anchor, by) {
                            Some((_, p)) => {
                                let next = SidedPort(anchor.0, Port(anchor.1.0, p));
                                match w.nearest_edge(&next, cell) {
                                    Some(f) => (1, Cursor::Edge(EdgeCursor { from: f.from, to: f.to, anchor: e.anchor })),
                                    None => (0, Cursor::Edge(e)),
                                }
                            },
                            None => (0, Cursor::Edge(e)),
                        }
                    },
                }
            }
        },
        Cursor::FixedPoint(p) => (steps, Cursor::FixedPoint(w.step_point_by(&p, step, steps))),
    }
}

fn opposite_once_exec<W: CursorOps>(w: &W, count: u32, c: Cursor<W::NodeId, W::PortId, W::Point>) -> (r: (
    u32,
    Cursor<W::NodeId, W::PortId, W::Point>,
))
    ensures
        r == opposite_once(*w, count, c),
        r.0 <= count || r.0 == 1,
{
    match c {
        Cursor::Node(n) => {
            let cell = w.cell_of(&c);
            match w.nearest_port(&n, Side::In, &cell) {
                Some(p) => (1, Cursor::Port(SidedPort(Side::In, Port(n, p)))),
                None => (0, c),
            }
        },
        Cursor::Port(p) => {
            if count % 2 == 0 {
                (count, c)
            } else {
                let cell = w.cell_of(&c);
                let other = p.0.flip();
                match w.nearest_port(&p.1.0, other, &cell) {
                    Some(p2) => (count, Cursor::Port(SidedPort(other, Port(p.1.0, p2)))),
                    None => (0, c),
                }
            }
        },
        Cursor::Edge(e) => {
            if count % 2 == 0 {
                (count, c)
            } else {
                (count, Cursor::Edge(EdgeCursor { from: e.from, to: e.to, anchor: e.anchor.flip() }))
            }
        },
        Cursor::FixedPoint(_) => (0, c),
    }
}

/// Moves the cursor `count` times over (once when no count is given), the
/// cell following each move, and shows the cursor if it moved; see
/// [`run_moves`]. Tells whether it moved.
pub fn move_cursor<W: CursorOps>(
    widget: &mut W,
    mv: CursorMove<W::NodeId, W::PortId>,
    count: Option<u32>,
    cursor: &mut Cursor<W::NodeId, W::PortId, W::Point>,
    cell: &mut W::Cell,
) -> (any: bool)
    requires
        count matches Some(c) ==> c > 0,
    ensures
        ({
            let r = run_moves(*old(widget), mv, count_or_one(count), *old(cursor), *old(cell));
            &&& any == r.0
            &&& *final(cursor) == r.1
            &&& *final(cell) == r.2
            &&& *final(widget) == if r.0 {
                old(widget).spec_update_cursor(CursorUpdate::Move, r.1)
            } else {
                *old(widget)
            }
        }),
{
    let ghost w0 = *widget;
    let mut left: u32 = match count {
        Some(c) => c,
        None => 1,
    };
    let ghost target = run_moves(w0, mv, left, *cursor, *cell);
    let mut any = false;
    while left > 0
        invariant
            *widget == w0,
            ({
                let rest = run_moves(w0, mv, left, *cursor, *cell);
                target == (any || rest.0, rest.1, rest.2)
            }),
        ensures
            any == target.0,
            *cursor == target.1,
            *cell == target.2,
        decreases left,
    {
        let (dec, next, align) = match mv {
            CursorMove::Step(s) => {
                let (d, n) = step_once_exec(widget, s, left, *cursor, cell);
                (d, n, match s {
                    Step::Left | Step::Right => AlignCell::KeepRow,
                    Step::Down | Step::Up => AlignCell::KeepCol,
                })
            },
            CursorMove::Opposite => {
                let (d, n) = opposite_once_exec(widget, left, *cursor);
                (d, n, AlignCell::Overwrite)
            },
            CursorMove::GoTo(p) => (1, Cursor::Port(p), AlignCell::Overwrite),
        };
        *cursor = next;
        if dec == 0 || dec > left {
            break;
        }
        widget.align_to_cursor(cell, &next, align);
        any = true;
        left = left - dec;
    }
    if any {
        widget.update_cursor(CursorUpdate::Move, cursor);
    }
    any
}

/// A step down asks the widget to step a port or an edge forward by the
/// number of steps, and a step up backward by it; what the widget finds
/// there is where the cursor goes, after that many steps.
pub proof fn lemma_vertical_steps_signed<W: CursorOps>(
    w: W,
    steps: u32,
    p: SidedPort<W::NodeId, W::PortId>,
    e: EdgeCursor<W::NodeId, W::PortId>,
    cell: W::Cell,
)
    requires
        0 < steps <= i32::MAX,
    ensures
        w.spec_step_port_by(p, steps as i32) matches Some((_, i)) ==> step_once(w, Step::Down, steps, Cursor::Port(p), cell)
            == (steps, Cursor::<W::NodeId, W::PortId, W::Point>::Port(SidedPort(p.0, Port(p.1.0, i)))),
        w.spec_step_port_by(p, (-(steps as int)) as i32) matches Some((_, i)) ==> step_once(w, Step::Up, steps, Cursor::Port(p), cell)
            == (steps, Cursor::<W::NodeId, W::PortId, W::Point>::Port(SidedPort(p.0, Port(p.1.0, i)))),
        w.spec_step_edge_by(e, steps as i32) matches Some((_, q)) ==> step_once(w, Step::Down, steps, Cursor::Edge(e), cell)
            == (steps, Cursor::<W::NodeId, W::PortId, W::Point>::Edge(e.spec_step(q))),
        w.spec_step_edge_by(e, (-(steps as int)) as i32) matches Some((_, q)) ==> step_once(w, Step::Up, steps, Cursor::Edge(e), cell)
            == (steps, Cursor::<W::NodeId, W::PortId, W::Point>::Edge(e.spec_step(q))),
{
}

} // verus!
