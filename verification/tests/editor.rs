use std::cell::Cell;

use wi_core::collect::get_one;
use wi_core::editor::bindings::op;
use wi_core::editor::operators::JumpToPort;
use wi_core::accept::TrapError;
use wi_core::editor::actions::{
    run_with_count, Action, ActionKind, CreateEdge, CreateNode, DeleteAtCursor, GoToOpposite, GoToPort, Nudge,
    PushCount, SimpleAction, StepCursor, ViewCursor,
};
use wi_core::editor::bindings::ActionOut;
use wi_core::editor::cursor::{Cursor, EdgeCursor};
use wi_core::editor::driver::{DriverInner, KeyStep, LastAction};
use wi_core::editor::jump::{JumpResult, JumpState};
use wi_core::editor::mode::{Mode, ModeKind};
use wi_core::editor::motion::{horiz_is_right, horiz_side, signed_steps, vert_is_down};
use wi_core::editor::node_ops::step_port_by;
use wi_core::editor::operators::{
    after_start, after_step, Create, CurrentOperator, Operator, OperatorFlow, OperatorKind,
    StartError,
};
use wi_core::editor::status::{show_status_change, LastChord, OperatorState, Status};
use wi_core::editor::types::{AlignCell, CursorUpdate, Port, Side, SidedPort, Step};
use wi_core::editor::widget::{CursorOps, EdgeOps, GraphWidgetTypes, NodeOps, UiOps};
use wi_core::editor::actions::Quit;
use wi_core::editor::dispatch::{init_operator, GraphWidgetDriver, KeyOutcome, OperatorInput, Started};
use wi_core::editor::bindings::{CreateOpAction, CreateOut};
use wi_core::editor::create_op::{
    jump_port_step, CreateEffect, CreateInput, CreatePhase, CreateResume, CreateStarted, JumpEffect,
};
use wi_core::editor::jump::{JumpOut, JumpToPortStarted};
use wi_core::editor::selection::{NullSelection, Selection, SelectionExt};

#[test]
fn side_flip_is_involutive() {
    assert_eq!(Side::In.flip(), Side::Out);
    assert_eq!(Side::Out.flip(), Side::In);
    assert_eq!(Side::In.flip().flip(), Side::In);
}

#[test]
fn edge_cursor_ports() {
    let e = EdgeCursor::new(SidedPort(Side::Out, Port(1u32, 2u16)), Port(3, 4));
    assert_eq!(e.from, Port(1, 2));
    assert_eq!(e.to, Port(3, 4));
    assert_eq!(e.anchor, Side::In);
    let (side, anchor) = e.anchor_port();
    assert_eq!((side, *anchor), (Side::Out, Port(1, 2)));
    assert_eq!(*e.free_port(), Port(3, 4));
    assert_eq!(e.into_port(Side::Out), SidedPort(Side::In, Port(3, 4)));
    assert_eq!(e.into_port(Side::In), SidedPort(Side::Out, Port(1, 2)));
    let stepped = e.step(Port(5, 6));
    assert_eq!(stepped.from, Port(1, 2));
    assert_eq!(stepped.to, Port(5, 6));
    assert_eq!(stepped.anchor, Side::In);

    let f = EdgeCursor::new(SidedPort(Side::In, Port(1u32, 2u16)), Port(3, 4));
    assert_eq!((f.from, f.to, f.anchor), (Port(3, 4), Port(1, 2), Side::Out));
    assert_eq!(f.step(Port(7, 8)).from, Port(7, 8));
}

#[test]
fn push_count_builds_decimal_counts() {
    assert_eq!(PushCount('4').process_count(None), Some(4));
    assert_eq!(PushCount('2').process_count(Some(4)), Some(42));
    assert_eq!(PushCount('0').process_count(None), None);
    assert_eq!(PushCount('0').process_count(Some(7)), Some(70));
    assert_eq!(PushCount('9').process_count(Some(u32::MAX / 10)), None);
    assert_eq!(PushCount('5').process_count(Some(429_496_729)), Some(4_294_967_295));
    // A character past `9` counts by its distance from `0`.
    assert_eq!(PushCount('a').process_count(Some(1)), Some(59));
}

#[test]
fn run_with_count_uses_up_the_count() {
    assert!(run_with_count(Some(5), |n| if n > 2 { Some(2) } else { None }));
    assert!(!run_with_count(None, |_| None));
    assert!(run_with_count(None, |n| Some(n)));
    // A closure may keep state between calls.
    let mut seen = Vec::new();
    assert!(run_with_count(Some(5), |n| {
        seen.push(n);
        if n > 2 { Some(2) } else { None }
    }));
    assert_eq!(seen, vec![5, 3, 1]);
}

#[test]
fn action_kind_names() {
    assert_eq!(ActionKind::StepLeft.name(), "step left");
    assert_eq!(ActionKind::ViewCursor.name(), "view cursor");
    assert!(ActionKind::PushCount.is_silent());
    assert!(ActionKind::StepUp.is_silent());
    assert!(!ActionKind::Quit.is_silent());
    let a: Action<u32, u16, u8, (i32, i32)> = Action::SimpleAction(SimpleAction::StepCursor(StepCursor(Step::Down)));
    assert_eq!(a.kind(), ActionKind::StepDown);
    assert_eq!(Operator::Create(Create).kind(), OperatorKind::Create);
    assert_eq!(OperatorKind::Create.name(), "create");
}

#[test]
fn mode_change_reports_whether_it_changed() {
    let mut m = Mode::default();
    assert!(!m.change(ModeKind::Normal));
    assert_eq!(m.kind(), ModeKind::Normal);
}

#[test]
fn node_port_steps_stop_at_the_ends() {
    assert_eq!(step_port_by(1, 4, 2), Some((2, 3)));
    assert_eq!(step_port_by(1, 4, 5), Some((2, 3)));
    assert_eq!(step_port_by(1, 4, -3), Some((1, 0)));
    assert_eq!(step_port_by(0, 4, -1), None);
    assert_eq!(step_port_by(3, 4, 1), None);
    assert_eq!(step_port_by(0, 0, 3), None);
}

#[test]
fn step_helpers() {
    assert!(horiz_is_right(Step::Right));
    assert!(!horiz_is_right(Step::Left));
    assert!(vert_is_down(Step::Down));
    assert!(!vert_is_down(Step::Up));
    assert_eq!(horiz_side(Step::Right), Side::Out);
    assert_eq!(horiz_side(Step::Left), Side::In);
    assert_eq!(signed_steps(true, 3), (3, 3));
    assert_eq!(signed_steps(false, 3), (-3, 3));
    assert_eq!(signed_steps(false, u32::MAX), (-i32::MAX, i32::MAX as u32));
    assert_eq!(signed_steps(true, u32::MAX), (i32::MAX, i32::MAX as u32));
}

#[test]
fn jump_start() {
    assert!(matches!(JumpState::<u8>::start(String::new(), vec![]), JumpResult::Abort));
    assert!(matches!(JumpState::start(String::new(), vec![7u8]), JumpResult::Accept(7)));
    match JumpState::start("g".to_string(), vec![1u8, 2]) {
        JumpResult::Jump(JumpState(p, t)) => {
            assert_eq!(p, "g");
            assert_eq!(t, vec![1, 2]);
        },
        _ => panic!("expected a jump"),
    }
}

#[test]
fn operators_push_and_pop() {
    let mut cur: CurrentOperator<u8> = CurrentOperator::new();
    let mut stash = Vec::new();
    cur.push(1, "c".to_string(), &mut stash);
    cur.push(2, "d".to_string(), &mut stash);
    assert_eq!(stash.len(), 1);
    assert_eq!(cur.as_ref(), Some(&2));
    assert_eq!(cur.pop(&mut stash), Some(("d".to_string(), 2)));
    assert_eq!(cur.as_ref(), Some(&1));
    assert!(stash.is_empty());
    assert_eq!(cur.pop(&mut stash), Some(("c".to_string(), 1)));
    assert!(cur.as_ref().is_none());
    assert_eq!(cur.pop(&mut stash), None);
}

#[test]
fn operator_flows() {
    let mut cur: CurrentOperator<u8> = CurrentOperator::new();
    let mut stash = Vec::new();
    assert!(!after_start(&mut cur, &mut stash, "c".to_string(), Err(StartError::new()), OperatorFlow::Continue));
    assert!(cur.as_ref().is_none());
    assert!(!after_start(&mut cur, &mut stash, "c".to_string(), Ok(1), OperatorFlow::Abort));
    assert!(after_start(&mut cur, &mut stash, "c".to_string(), Ok(1), OperatorFlow::Finish));
    assert!(cur.as_ref().is_none());
    assert!(after_start(&mut cur, &mut stash, "c".to_string(), Ok(1), OperatorFlow::Continue));
    assert_eq!(cur.as_ref(), Some(&1));
    assert!(after_step(&mut cur, &mut stash, OperatorFlow::Continue));
    assert_eq!(cur.as_ref(), Some(&1));
    assert!(!after_step(&mut cur, &mut stash, OperatorFlow::Abort));
    assert!(cur.as_ref().is_none());
}

#[test]
fn error_messages() {
    assert_eq!(StartError::new().message(), "Operator did not start");
    assert_eq!(TrapError.message(), "Acceptor received unhandled input");
}

#[test]
fn status_defaults() {
    let s = Status::default();
    assert_eq!(s.count, None);
    assert_eq!(s.mode, ModeKind::Normal);
    assert!(s.current_operator.is_none());
    assert!(!s.debug);
    assert_eq!(s.last_chord, LastChord::default());
}

type Driver = DriverInner<u32, u16, u8, (i32, i32)>;

fn driver() -> Driver {
    DriverInner {
        count: Some(3),
        mode: Mode::default(),
        debug: false,
        last_action: LastAction::new(),
        last_op: LastChord::default(),
    }
}

#[test]
fn refused_key_clears_count_and_records_chord() {
    let mut d = driver();
    let step = d.accept_out("zx".to_string(), ActionOut::Trap);
    assert!(matches!(step, KeyStep::Done(false)));
    assert_eq!(d.count, None);
    assert_eq!(d.last_op.count, Some(3));
    assert_eq!(d.last_op.chord, "zx");
    assert!(d.last_action.hidden);
}

#[test]
fn action_key_hands_on_count() {
    let mut d = driver();
    let step = d.accept_out("q".to_string(), ActionOut::Action(SimpleAction::Quit(wi_core::editor::actions::Quit)));
    match step {
        KeyStep::RunAction(SimpleAction::Quit(_), Some(3)) => {},
        _ => panic!("expected the action with its count"),
    }
    assert_eq!(d.count, None);
    assert_eq!(d.last_op.chord, "q");
    let handled = d.finish_action(Action::SimpleAction(SimpleAction::Quit(wi_core::editor::actions::Quit)), true);
    assert!(handled);
    assert!(!d.last_action.hidden);
    assert!(d.last_action.as_ref(false).is_some());
}

#[test]
fn silent_action_keeps_last_chord() {
    let mut d = driver();
    let step = d.accept_out("j".to_string(), ActionOut::Action(SimpleAction::StepCursor(StepCursor(Step::Down))));
    assert!(matches!(step, KeyStep::RunAction(_, Some(3))));
    assert_eq!(d.last_op, LastChord::default());
}

#[test]
fn operator_key_records_prefix() {
    let mut d = driver();
    let step = d.accept_out("c".to_string(), ActionOut::Operator(Operator::Create(Create)));
    match step {
        KeyStep::StartOperator(Operator::Create(_), chord, Some(3)) => assert_eq!(chord, "c"),
        _ => panic!("expected the operator"),
    }
    assert_eq!(d.last_op.operator_prefix, Some("c".to_string()));
    assert_eq!(d.last_op.chord, "");
}

#[test]
fn toggles_and_counts() {
    let mut d = driver();
    assert!(!d.toggle_debug(Some(2)));
    assert!(d.toggle_debug(None));
    assert!(d.debug);
    assert!(d.push_count(PushCount('7'), Some(1)));
    assert_eq!(d.count, Some(17));
}

/// A row of nodes, each with three ports on either side; output port `k`
/// of node `n` is wired to input port `k` of node `n + 1`.
#[derive(Clone)]
struct Line {
    nodes: u32,
    updates: Vec<CursorUpdate>,
    deleted_nodes: Vec<u32>,
    deleted_edges: Vec<(Port<u32, u16>, Port<u32, u16>)>,
    nudged: Vec<(u32, Step, u32)>,
    created: u32,
    quit_asked: bool,
    statuses_shown: u32,
}

impl GraphWidgetTypes for Line {
    type NodeId = u32;
    type PortId = u16;
    type Cell = (i32, i32);
    type Point = (i32, i32);
    type NodeKind = u8;
}

impl CursorOps for Line {
    fn spec_default_cursor(&self) -> Cursor<u32, u16, (i32, i32)> {
        self.default_cursor()
    }

    fn default_cursor(&self) -> Cursor<u32, u16, (i32, i32)> {
        Cursor::Node(0)
    }

    fn spec_nearest_port(&self, node: u32, side: Side, cell: (i32, i32)) -> Option<u16> {
        self.nearest_port(&node, side, &cell)
    }

    fn spec_step_port_by(&self, port: SidedPort<u32, u16>, count: i32) -> Option<(i32, u16)> {
        self.step_port_by(&port, count)
    }

    fn spec_nearest_edge(&self, port: SidedPort<u32, u16>, cell: (i32, i32)) -> Option<EdgeCursor<u32, u16>> {
        self.nearest_edge(&port, &cell)
    }

    fn spec_nearest_node_except(&self, cell: (i32, i32), except: Option<u32>) -> Option<u32> {
        self.nearest_node_where(&cell, |m| Some(*m) != except)
    }

    fn spec_nearest_edge_except(
        &self,
        port: SidedPort<u32, u16>,
        cell: (i32, i32),
        except: Option<EdgeCursor<u32, u16>>,
    ) -> Option<EdgeCursor<u32, u16>> {
        self.nearest_edge_where(&port, &cell, |e| match except {
            Some(x) => !(e.from == x.from && e.to == x.to),
            None => true,
        })
    }

    fn spec_step_edge_by(&self, edge: EdgeCursor<u32, u16>, count: i32) -> Option<(i32, Port<u32, u16>)> {
        self.step_edge_by(&edge, count)
    }

    fn spec_step_point_by(&self, point: (i32, i32), step: Step, count: u32) -> (i32, i32) {
        self.step_point_by(&point, step, count)
    }

    fn spec_cell_of(&self, cursor: Cursor<u32, u16, (i32, i32)>) -> (i32, i32) {
        self.cell_of(&cursor)
    }

    fn spec_align(&self, cell: (i32, i32), cursor: Cursor<u32, u16, (i32, i32)>, align: AlignCell) -> (i32, i32) {
        let mut c = cell;
        self.align_to_cursor(&mut c, &cursor, align);
        c
    }

    fn nearest_port(&self, node: &u32, _side: Side, cell: &(i32, i32)) -> Option<u16> {
        if *node < self.nodes { Some(cell.1.clamp(0, 2) as u16) } else { None }
    }

    fn step_port_by(&self, port: &SidedPort<u32, u16>, count: i32) -> Option<(i32, u16)> {
        step_port_by(port.1 .1, 3, count).map(|(d, p)| (d, p))
    }

    fn nearest_edge(&self, port: &SidedPort<u32, u16>, _cell: &(i32, i32)) -> Option<EdgeCursor<u32, u16>> {
        let SidedPort(side, Port(n, p)) = *port;
        match side {
            Side::Out if n + 1 < self.nodes => Some(EdgeCursor::new(*port, Port(n + 1, p))),
            Side::In if n > 0 => Some(EdgeCursor::new(*port, Port(n - 1, p))),
            _ => None,
        }
    }

    fn step_edge_by(&self, _edge: &EdgeCursor<u32, u16>, _count: i32) -> Option<(i32, Port<u32, u16>)> { None }

    fn step_point_by(&self, point: &(i32, i32), step: Step, count: u32) -> (i32, i32) {
        let c = count as i32;
        match step {
            Step::Left => (point.0 - c, point.1),
            Step::Right => (point.0 + c, point.1),
            Step::Up => (point.0, point.1 - c),
            Step::Down => (point.0, point.1 + c),
        }
    }

    fn cell_of(&self, cursor: &Cursor<u32, u16, (i32, i32)>) -> (i32, i32) {
        match cursor {
            Cursor::Node(n) => (*n as i32 * 10, 0),
            Cursor::Port(SidedPort(_, Port(n, p))) => (*n as i32 * 10, *p as i32),
            Cursor::Edge(e) => (e.from.0 as i32 * 10 + 5, e.from.1 as i32),
            Cursor::FixedPoint(p) => *p,
        }
    }

    fn align_to_cursor(&self, cell: &mut (i32, i32), cursor: &Cursor<u32, u16, (i32, i32)>, align: AlignCell) {
        let to = self.cell_of(cursor);
        match align {
            AlignCell::Overwrite => *cell = to,
            AlignCell::KeepRow => cell.0 = to.0,
            AlignCell::KeepCol => cell.1 = to.1,
        }
    }

    fn spec_position(&self, cell: (i32, i32)) -> (i32, i32) {
        self.position(&cell)
    }

    fn nearest_node_where<F: Fn(&u32) -> bool>(&self, cell: &(i32, i32), pred: F) -> Option<u32> {
        let mut nodes: Vec<u32> = (0..self.nodes).filter(|n| !self.deleted_nodes.contains(n)).collect();
        nodes.sort_by_key(|n| (*n as i32 * 10 - cell.0).abs());
        nodes.into_iter().find(|n| pred(n))
    }

    fn nearest_edge_where<F: Fn(&EdgeCursor<u32, u16>) -> bool>(
        &self,
        port: &SidedPort<u32, u16>,
        cell: &(i32, i32),
        pred: F,
    ) -> Option<EdgeCursor<u32, u16>> {
        self.nearest_edge(port, cell).filter(|e| pred(e))
    }

    fn position(&self, cell: &(i32, i32)) -> (i32, i32) {
        *cell
    }

    fn spec_update_cursor(&self, update: CursorUpdate, cursor: Cursor<u32, u16, (i32, i32)>) -> Line {
        let mut w = self.clone();
        w.update_cursor(update, &cursor);
        w
    }

    fn update_cursor(&mut self, update: CursorUpdate, _cursor: &Cursor<u32, u16, (i32, i32)>) {
        self.updates.push(update);
    }
}

impl EdgeOps for Line {
    fn spec_create_edge(&self, from: Port<u32, u16>, to: Port<u32, u16>) -> Line {
        let mut w = self.clone();
        w.create_edge(from, to);
        w
    }

    fn spec_delete_edge(&self, from: Port<u32, u16>, to: Port<u32, u16>) -> (Line, bool) {
        let mut w = self.clone();
        let r = w.delete_edge(&from, &to);
        (w, r)
    }

    fn create_edge(&mut self, _from: Port<u32, u16>, _to: Port<u32, u16>) {
        self.created += 1;
    }

    fn delete_edge(&mut self, from: &Port<u32, u16>, to: &Port<u32, u16>) -> bool {
        self.deleted_edges.push((*from, *to));
        true
    }
}

impl NodeOps for Line {
    fn spec_create_node(&self, kind: u8, position: (i32, i32)) -> Line {
        let mut w = self.clone();
        w.create_node(kind, position);
        w
    }

    fn spec_nudge_node(&self, node: u32, step: Step, count: u32) -> (Line, bool) {
        let mut w = self.clone();
        let r = w.nudge_node(&node, step, count);
        (w, r)
    }

    fn spec_delete_node(&self, node: u32) -> (Line, bool) {
        let mut w = self.clone();
        let r = w.delete_node(&node);
        (w, r)
    }

    fn create_node(&mut self, _kind: u8, _position: (i32, i32)) {
        self.nodes += 1;
    }

    fn nudge_node(&mut self, node: &u32, step: Step, count: u32) -> bool {
        self.nudged.push((*node, step, count));
        true
    }

    fn delete_node(&mut self, node: &u32) -> bool {
        if *node < self.nodes && !self.deleted_nodes.contains(node) {
            self.deleted_nodes.push(*node);
            true
        } else {
            false
        }
    }
}

impl UiOps for Line {
    fn spec_update_status(&self, status: Status) -> Line {
        let mut w = self.clone();
        w.update_status(status);
        w
    }

    fn spec_quit(&self) -> Line {
        let mut w = self.clone();
        w.quit();
        w
    }

    fn update_status(&mut self, _status: Status) {
        self.statuses_shown += 1;
    }

    fn quit(&mut self) {
        self.quit_asked = true;
    }
}

fn line() -> Line {
    Line {
        nodes: 3,
        updates: Vec::new(),
        deleted_nodes: Vec::new(),
        deleted_edges: Vec::new(),
        nudged: Vec::new(),
        created: 0,
        quit_asked: false,
        statuses_shown: 0,
    }
}

#[test]
fn step_right_from_node_enters_output_port() {
    let mut w = line();
    let mut cursor = Cursor::Node(0);
    let mut cell = (0, 1);
    assert!(StepCursor(Step::Right).process(&mut w, None, &mut cursor, &mut cell));
    assert_eq!(cursor, Cursor::Port(SidedPort(Side::Out, Port(0, 1))));
    assert_eq!(cell, (0, 1));
    assert_eq!(w.updates, vec![CursorUpdate::Move]);
}

#[test]
fn counted_steps_walk_ports_and_edges() {
    let mut w = line();
    let mut cursor = Cursor::Port(SidedPort(Side::Out, Port(0, 0)));
    let mut cell = (0, 0);
    // Down twice over the output ports of node 0.
    assert!(StepCursor(Step::Down).process(&mut w, Some(2), &mut cursor, &mut cell));
    assert_eq!(cursor, Cursor::Port(SidedPort(Side::Out, Port(0, 2))));
    assert_eq!(cell, (0, 2));
    // Right onto the edge, then right again onto the far port.
    assert!(StepCursor(Step::Right).process(&mut w, Some(2), &mut cursor, &mut cell));
    assert_eq!(cursor, Cursor::Port(SidedPort(Side::In, Port(1, 2))));
    assert_eq!(cell, (10, 2));
    // Left from an input port goes onto the edge on its side.
    assert!(StepCursor(Step::Left).process(&mut w, None, &mut cursor, &mut cell));
    assert_eq!(cursor, Cursor::Edge(EdgeCursor { from: Port(0, 2), to: Port(1, 2), anchor: Side::Out }));
    // Right from the edge comes back to the port, and right again reaches
    // the port's node.
    assert!(StepCursor(Step::Right).process(&mut w, Some(2), &mut cursor, &mut cell));
    assert_eq!(cursor, Cursor::Node(1));
}

#[test]
fn blocked_step_leaves_cursor_and_shows_nothing() {
    let mut w = line();
    let mut cursor = Cursor::Port(SidedPort(Side::Out, Port(2, 0)));
    let mut cell = (20, 0);
    assert!(StepCursor(Step::Right).process(&mut w, None, &mut cursor, &mut cell));
    assert_eq!(cursor, Cursor::Port(SidedPort(Side::Out, Port(2, 0))));
    assert_eq!(cell, (20, 0));
    assert!(w.updates.is_empty());
}

#[test]
fn fixed_point_moves_by_the_whole_count() {
    let mut w = line();
    let mut cursor = Cursor::FixedPoint((3, 4));
    let mut cell = (3, 4);
    assert!(StepCursor(Step::Left).process(&mut w, Some(3), &mut cursor, &mut cell));
    assert_eq!(cursor, Cursor::FixedPoint((0, 4)));
    assert_eq!(cell.0, 0);
}

#[test]
fn opposite_flips_ports_and_edges() {
    let mut w = line();
    let mut cursor = Cursor::Port(SidedPort(Side::In, Port(1, 2)));
    let mut cell = (10, 2);
    assert!(GoToOpposite.process(&mut w, None, &mut cursor, &mut cell));
    assert_eq!(cursor, Cursor::Port(SidedPort(Side::Out, Port(1, 2))));
    // An even count leaves a port where it is.
    assert!(GoToOpposite.process(&mut w, Some(2), &mut cursor, &mut cell));
    assert_eq!(cursor, Cursor::Port(SidedPort(Side::Out, Port(1, 2))));
    let e = EdgeCursor::new(SidedPort(Side::Out, Port(0u32, 1u16)), Port(1, 1));
    let mut cursor = Cursor::Edge(e);
    assert!(GoToOpposite.process(&mut w, None, &mut cursor, &mut cell));
    match cursor {
        Cursor::Edge(f) => {
            assert_eq!(f.anchor, e.anchor.flip());
            assert_eq!((f.from, f.to), (e.from, e.to));
        },
        _ => panic!("expected an edge"),
    }
    let mut cursor = Cursor::Node(0);
    assert!(GoToOpposite.process(&mut w, None, &mut cursor, &mut cell));
    assert_eq!(cursor, Cursor::Port(SidedPort(Side::In, Port(0, 0))));
}

#[test]
fn go_to_port_and_view() {
    let mut w = line();
    let mut cursor = Cursor::Node(0);
    let mut cell = (0, 0);
    let target = SidedPort(Side::In, Port(2, 1));
    assert!(!GoToPort(target).process(&mut w, Some(1), &mut cursor, &mut cell));
    assert_eq!(cursor, Cursor::Node(0));
    assert!(GoToPort(target).process(&mut w, None, &mut cursor, &mut cell));
    assert_eq!(cursor, Cursor::Port(target));
    assert_eq!(cell, (20, 1));
    assert!(!ViewCursor.process(&mut w, Some(2), &cursor));
    assert!(ViewCursor.process(&mut w, None, &cursor));
    assert_eq!(w.updates.last(), Some(&CursorUpdate::CenterInView));
}

#[test]
fn delete_node_moves_cursor_to_nearest_other_node() {
    let mut w = line();
    let mut cursor = Cursor::Node(1);
    let mut cell = (10, 0);
    assert!(!DeleteAtCursor.process(&mut w, Some(1), &mut cursor, &mut cell));
    assert!(w.deleted_nodes.is_empty());
    assert!(DeleteAtCursor.process(&mut w, None, &mut cursor, &mut cell));
    assert_eq!(w.deleted_nodes, vec![1]);
    assert_eq!(cursor, Cursor::Node(0));
    assert_eq!(w.updates, vec![CursorUpdate::Move]);
}

#[test]
fn deleting_the_last_node_leaves_the_cursor_at_the_cell() {
    let mut w = line();
    w.nodes = 1;
    let mut cursor = Cursor::Node(0);
    let mut cell = (7, 3);
    assert!(DeleteAtCursor.process(&mut w, None, &mut cursor, &mut cell));
    assert_eq!(w.deleted_nodes, vec![0]);
    assert_eq!(cursor, Cursor::FixedPoint((7, 3)));
}

#[test]
fn delete_edge_falls_back_to_a_node() {
    let mut w = line();
    let e = EdgeCursor::new(SidedPort(Side::Out, Port(0u32, 1u16)), Port(1, 1));
    let mut cursor = Cursor::Edge(e);
    let mut cell = (5, 1);
    assert!(DeleteAtCursor.process(&mut w, None, &mut cursor, &mut cell));
    assert_eq!(w.deleted_edges, vec![(Port(0, 1), Port(1, 1))]);
    assert_eq!(cursor, Cursor::Node(0));
}

#[test]
fn delete_refused_on_port_and_point() {
    let mut w = line();
    let mut cursor = Cursor::Port(SidedPort(Side::In, Port(1, 0)));
    let mut cell = (10, 0);
    assert!(!DeleteAtCursor.process(&mut w, None, &mut cursor, &mut cell));
    let mut cursor = Cursor::FixedPoint((1, 2));
    assert!(!DeleteAtCursor.process(&mut w, None, &mut cursor, &mut cell));
    assert_eq!(cursor, Cursor::FixedPoint((1, 2)));
}

#[test]
fn nudge_only_moves_nodes() {
    let mut w = line();
    assert!(Nudge(Step::Up).process(&mut w, Some(4), &Cursor::Node(2)));
    assert_eq!(w.nudged, vec![(2, Step::Up, 4)]);
    assert!(!Nudge(Step::Up).process(&mut w, None, &Cursor::FixedPoint((0, 0))));
}

#[test]
fn op_converts_operators() {
    assert_eq!(op(Create), Operator::Create(Create));
    assert_eq!(op(JumpToPort::Global(Side::In)), Operator::JumpToPort(JumpToPort::Global(Side::In)));
}

#[test]
fn get_one_takes_the_first_and_reports_a_second() {
    let extra = Cell::new(None);
    assert_eq!(get_one(vec![1, 2, 3], |x| extra.set(Some(x))), Some(1));
    assert_eq!(extra.get(), Some(2));
    let extra = Cell::new(None);
    assert_eq!(get_one(vec![5], |x: i32| extra.set(Some(x))), Some(5));
    assert_eq!(extra.get(), None);
    assert_eq!(get_one(Vec::<i32>::new(), |_| ()), None);
}

#[test]
fn quit_asks_the_widget_only_without_count() {
    let mut w = line();
    assert!(!Quit.process(&mut w, Some(2)));
    assert!(!w.quit_asked);
    assert!(Quit.process(&mut w, None));
    assert!(w.quit_asked);
}

#[test]
fn create_edge_and_node_refused_with_count() {
    let mut w = line();
    assert!(!CreateEdge(Port(0, 0), Port(1, 0)).process(&mut w, Some(1)));
    assert_eq!(w.created, 0);
    assert!(CreateEdge(Port(0, 0), Port(1, 0)).process(&mut w, None));
    assert_eq!(w.created, 1);
    assert!(!CreateNode(7, (0, 0)).process(&mut w, Some(3)));
    assert_eq!(w.nodes, 3);
    assert!(CreateNode(7, (0, 0)).process(&mut w, None));
    assert_eq!(w.nodes, 4);
}

#[test]
fn create_refused_with_count() {
    assert!(Create.start_op::<u32, u16>(Some(2)).is_err());
    match Create.start_op::<u32, u16>(None) {
        Ok(CreateStarted(CreatePhase::Init(k))) => assert_eq!(k, ""),
        _ => panic!("expected a fresh create operator"),
    }
}

#[test]
fn create_node_prompts_then_creates() {
    let mut op: CreateStarted<u32, u16> = CreateStarted(CreatePhase::Init(String::new()));
    let cursor: Cursor<u32, u16, (i32, i32)> = Cursor::Node(0);
    let e = op.step("cn".to_string(), CreateInput::Op(CreateOut::CreateOpAction(CreateOpAction::Accept)), &cursor);
    assert!(matches!(e, CreateEffect::PromptNodeKind));
    match &op.0 {
        CreatePhase::Yielded(c) => assert_eq!(c, "cn"),
        _ => panic!("expected to wait for a node kind"),
    }
    let e = op.step("x".to_string(), CreateInput::Op(CreateOut::Trap), &cursor);
    assert!(matches!(e, CreateEffect::Wait));
    match op.resume(Some(7u8), (3, 4)) {
        CreateResume::CreateNode(k, p, c) => {
            assert_eq!(k, 7);
            assert_eq!(p, (3, 4));
            assert_eq!(c, "cn");
        },
        _ => panic!("expected a node"),
    }
    match op.resume::<u8, (i32, i32)>(None, (3, 4)) {
        CreateResume::Finish(c) => assert_eq!(c, "cn"),
        _ => panic!("expected to finish"),
    }
}

#[test]
fn create_edge_from_port_connects_in_direction() {
    let mut op: CreateStarted<u32, u16> = CreateStarted(CreatePhase::Init(String::new()));
    let cursor: Cursor<u32, u16, (i32, i32)> = Cursor::Port(SidedPort(Side::In, Port(2, 1)));
    let e = op.step("ci".to_string(), CreateInput::Op(CreateOut::CreateOpAction(CreateOpAction::Side(Side::In))), &cursor);
    assert!(matches!(e, CreateEffect::Wait));
    let e = op.step("ci".to_string(), CreateInput::Jump(JumpOut::Advance), &cursor);
    assert!(matches!(e, CreateEffect::Wait));
    let e = op.step(
        "cia".to_string(),
        CreateInput::Jump(JumpOut::Accept(SidedPort(Side::Out, Port(0, 2)))),
        &cursor,
    );
    match e {
        CreateEffect::CreateEdge(from, to, chord) => {
            assert_eq!(from, Port(2, 1));
            assert_eq!(to, Port(0, 2));
            assert_eq!(chord, "cia");
        },
        _ => panic!("expected an edge"),
    }
}

#[test]
fn create_edge_aborts_on_wrong_side_or_point() {
    let mut op: CreateStarted<u32, u16> = CreateStarted(CreatePhase::Init(String::new()));
    let port: Cursor<u32, u16, (i32, i32)> = Cursor::Port(SidedPort(Side::In, Port(2, 1)));
    match op.step("co".to_string(), CreateInput::Op(CreateOut::CreateOpAction(CreateOpAction::Side(Side::Out))), &port) {
        CreateEffect::Abort(c) => assert_eq!(c, "co"),
        _ => panic!("expected an abort"),
    }
    let point: Cursor<u32, u16, (i32, i32)> = Cursor::FixedPoint((0, 0));
    assert!(matches!(
        op.step("co".to_string(), CreateInput::Op(CreateOut::CreateOpAction(CreateOpAction::Side(Side::Out))), &point),
        CreateEffect::Abort(_)
    ));
    assert!(matches!(op.step("c".to_string(), CreateInput::Op(CreateOut::Advance), &point), CreateEffect::Wait));
}

#[test]
fn create_edge_from_node_jumps_twice() {
    let mut op: CreateStarted<u32, u16> = CreateStarted(CreatePhase::Init(String::new()));
    let node: Cursor<u32, u16, (i32, i32)> = Cursor::Node(1);
    op.step("co".to_string(), CreateInput::Op(CreateOut::CreateOpAction(CreateOpAction::Side(Side::Out))), &node);
    assert!(matches!(op.0, CreatePhase::EdgeStart(_)));
    op.step("coa".to_string(), CreateInput::Jump(JumpOut::Accept(SidedPort(Side::Out, Port(1, 0)))), &node);
    assert!(matches!(op.0, CreatePhase::EdgeConnect(_, SidedPort(Side::Out, Port(1, 0)))));
    match op.step("coab".to_string(), CreateInput::Jump(JumpOut::Accept(SidedPort(Side::In, Port(2, 2)))), &node) {
        CreateEffect::CreateEdge(from, to, _) => {
            assert_eq!(from, Port(2, 2));
            assert_eq!(to, Port(1, 0));
        },
        _ => panic!("expected an edge"),
    }
    match op.step("coabz".to_string(), CreateInput::Jump(JumpOut::Trap), &node) {
        CreateEffect::Abort(c) => assert_eq!(c, "coabz"),
        _ => panic!("expected an abort"),
    }
}

#[test]
fn jump_port_step_goes_or_aborts() {
    assert!(matches!(jump_port_step::<u32, u16>("j".to_string(), JumpOut::Advance), JumpEffect::Wait));
    match jump_port_step::<u32, u16>("jx".to_string(), JumpOut::Trap) {
        JumpEffect::Abort(c) => assert_eq!(c, "jx"),
        _ => panic!("expected an abort"),
    }
    match jump_port_step("ja".to_string(), JumpOut::Accept(SidedPort(Side::In, Port(4u32, 1u16)))) {
        JumpEffect::GoToPort(p) => assert_eq!(p, SidedPort(Side::In, Port(4, 1))),
        _ => panic!("expected a port"),
    }
}

#[test]
fn null_selection_inverted_ignores_changes() {
    let mut s = NullSelection.inverted();
    s.union(Vec::new());
    s.difference(Vec::new());
    let NullSelection = s.0;
}

#[test]
fn new_driver_shows_default_status() {
    let d: Driver = DriverInner::new();
    let cur: CurrentOperator<Started<u32, u16>> = CurrentOperator::new();
    assert_eq!(d.status(&cur, String::new()), Status::default());
}

#[test]
fn status_shows_running_operator_and_pending_keys() {
    let d = driver();
    let mut cur: CurrentOperator<Started<u32, u16>> = CurrentOperator::new();
    let mut stashed = Vec::new();
    cur.push(Started::Create(CreateStarted(CreatePhase::Init("cx".to_string()))), "c".to_string(), &mut stashed);
    let s = d.status(&cur, "g".to_string());
    assert_eq!(s.count, Some(3));
    assert_eq!(s.pending_op, "g");
    let op = s.current_operator.expect("an operator runs");
    assert_eq!(op.operator_chord, "c");
    assert_eq!(op.operator, OperatorKind::Create);
    assert_eq!(op.pending_op, "cx");
}

#[test]
fn status_shows_the_chord_a_running_operator_holds() {
    let d = driver();
    let mut cur: CurrentOperator<Started<u32, u16>> = CurrentOperator::new();
    let mut stashed = Vec::new();
    let jump = JumpState("gj".to_string(), vec![SidedPort(Side::In, Port(0u32, 0u16))]);
    cur.push(Started::Jump(JumpToPortStarted(jump)), "g".to_string(), &mut stashed);
    let op = d.status(&cur, String::new()).current_operator.expect("an operator runs");
    assert_eq!(op.operator, OperatorKind::JumpToPort);
    assert_eq!(op.pending_op, "gj");
    cur.push(Started::Create(CreateStarted(CreatePhase::EdgeStart("co".to_string()))), "c".to_string(), &mut stashed);
    let op = d.status(&cur, String::new()).current_operator.expect("an operator runs");
    assert_eq!(op.operator, OperatorKind::Create);
    assert_eq!(op.operator_chord, "c");
    assert_eq!(op.pending_op, "co");
}

#[test]
fn create_operator_keeps_the_keys_its_acceptor_holds() {
    let mut op: CreateStarted<u32, u16> = CreateStarted(CreatePhase::Init(String::new()));
    let cursor: Cursor<u32, u16, (i32, i32)> = Cursor::Node(0);
    let e = op.step("c".to_string(), CreateInput::Op(CreateOut::Advance), &cursor);
    assert!(matches!(e, CreateEffect::Wait));
    match &op.0 {
        CreatePhase::Init(k) => assert_eq!(k, "c"),
        _ => panic!("expected to go on reading"),
    }
    let started = Started::Create(op);
    assert_eq!(started.pending_op(), "c");
    assert_eq!(started.kind(), OperatorKind::Create);
}

type LineAction = Action<u32, u16, u8, (i32, i32)>;

#[test]
fn repeat_runs_the_last_action_again() {
    let mut w = line();
    let mut d = driver();
    d.count = None;
    d.last_action.replace(Action::SimpleAction(SimpleAction::StepCursor(StepCursor(Step::Right))));
    d.last_action.hide_action();
    let mut cursor = Cursor::Node(0);
    let mut cell = (0, 1);
    let a: LineAction = Action::SimpleAction(SimpleAction::Repeat(wi_core::editor::actions::Repeat));
    assert!(a.process(None, &mut w, &mut d, &mut cursor, &mut cell));
    assert_eq!(cursor, Cursor::Port(SidedPort(Side::Out, Port(0, 1))));
    assert_eq!(w.updates, vec![CursorUpdate::Move]);
}

#[test]
fn repeat_without_last_action_does_nothing() {
    let mut w = line();
    let mut d = driver();
    let mut cursor = Cursor::Node(0);
    let mut cell = (0, 1);
    let a: LineAction = Action::SimpleAction(SimpleAction::Repeat(wi_core::editor::actions::Repeat));
    assert!(!a.process(None, &mut w, &mut d, &mut cursor, &mut cell));
    assert_eq!(cursor, Cursor::Node(0));
    assert!(w.updates.is_empty());
}

#[test]
fn process_dispatches_to_each_action() {
    let mut w = line();
    let mut d = driver();
    let mut cursor = Cursor::Node(1);
    let mut cell = (10, 0);
    let push: LineAction = Action::SimpleAction(SimpleAction::PushCount(PushCount('4')));
    assert!(push.process(Some(2), &mut w, &mut d, &mut cursor, &mut cell));
    assert_eq!(d.count, Some(24));
    let create: LineAction = Action::CreateNode(CreateNode(9, (5, 5)));
    assert!(!create.process(Some(2), &mut w, &mut d, &mut cursor, &mut cell));
    assert_eq!(w.nodes, 3);
    assert!(create.process(None, &mut w, &mut d, &mut cursor, &mut cell));
    assert_eq!(w.nodes, 4);
    let go: LineAction = Action::GoToPort(GoToPort(SidedPort(Side::In, Port(2, 1))));
    assert!(go.process(None, &mut w, &mut d, &mut cursor, &mut cell));
    assert_eq!(cursor, Cursor::Port(SidedPort(Side::In, Port(2, 1))));
    let del: LineAction = Action::SimpleAction(SimpleAction::DeleteAtCursor(DeleteAtCursor));
    assert!(!del.process(None, &mut w, &mut d, &mut cursor, &mut cell));
    let quit: LineAction = Action::SimpleAction(SimpleAction::Quit(Quit));
    assert!(quit.process(None, &mut w, &mut d, &mut cursor, &mut cell));
    assert!(w.quit_asked);
}

#[test]
fn handle_key_runs_and_records_actions() {
    let mut w = line();
    let mut d = driver();
    let mut cursor = Cursor::Node(0);
    let mut cell = (0, 1);
    let out = d.handle_key(&mut w, &mut cursor, &mut cell, "l".to_string(), ActionOut::Action(SimpleAction::StepCursor(StepCursor(Step::Right))));
    assert!(matches!(out, KeyOutcome::Handled(true)));
    assert_eq!(d.count, None);
    // the pending count of three steps: onto the output port, the edge,
    // and the input port at its other end
    assert_eq!(cursor, Cursor::Port(SidedPort(Side::In, Port(1, 1))));
    assert!(d.last_action.action.is_none());

    let out = d.handle_key(&mut w, &mut cursor, &mut cell, "q".to_string(), ActionOut::Action(SimpleAction::Quit(Quit)));
    assert!(matches!(out, KeyOutcome::Handled(true)));
    assert!(w.quit_asked);
    assert_eq!(d.last_action.action, Some(Action::SimpleAction(SimpleAction::Quit(Quit))));
    assert_eq!(d.last_op.chord, "q");
}

#[test]
fn handle_key_traps_and_hands_operators_back() {
    let mut w = line();
    let mut d = driver();
    let mut cursor = Cursor::Node(0);
    let mut cell = (0, 1);
    let out = d.handle_key(&mut w, &mut cursor, &mut cell, "zx".to_string(), ActionOut::Trap);
    assert!(matches!(out, KeyOutcome::Handled(false)));
    assert_eq!(d.count, None);
    assert_eq!(d.last_op.chord, "zx");
    d.count = Some(2);
    match d.handle_key(&mut w, &mut cursor, &mut cell, "c".to_string(), ActionOut::Operator(Operator::Create(Create))) {
        KeyOutcome::StartOperator(Operator::Create(_), chord, Some(2)) => assert_eq!(chord, "c"),
        _ => panic!("expected the operator to be handed back"),
    }
    assert_eq!(cursor, Cursor::Node(0));
}

#[test]
fn create_effects_are_carried_out() {
    let mut w = line();
    let mut d = driver();
    let mut cursor = Cursor::Node(0);
    let mut cell = (0, 1);
    let wait = d.apply_create_effect(CreateEffect::Wait, &mut w, &mut cursor, &mut cell);
    assert_eq!(wait, OperatorFlow::Continue);
    let abort = d.apply_create_effect(CreateEffect::Abort("cz".to_string()), &mut w, &mut cursor, &mut cell);
    assert_eq!(abort, OperatorFlow::Abort);
    assert_eq!(d.last_op.chord, "cz");
    let done = d.apply_create_effect(
        CreateEffect::CreateEdge(Port(0, 1), Port(1, 1), "coab".to_string()),
        &mut w,
        &mut cursor,
        &mut cell,
    );
    assert_eq!(done, OperatorFlow::Finish);
    assert_eq!(w.created, 1);
    assert_eq!(d.last_op.chord, "coab");
    assert_eq!(d.last_action.action, Some(Action::CreateEdge(CreateEdge(Port(0, 1), Port(1, 1)))));
}

#[test]
fn operator_actions_are_recorded_when_loud_and_handled() {
    let mut w = line();
    let mut d = driver();
    let mut cursor = Cursor::Node(0);
    let mut cell = (0, 1);
    let go: LineAction = Action::GoToPort(GoToPort(SidedPort(Side::Out, Port(1, 2))));
    assert!(d.run_operator_action(go, None, &mut w, &mut cursor, &mut cell));
    assert_eq!(cursor, Cursor::Port(SidedPort(Side::Out, Port(1, 2))));
    assert_eq!(d.last_action.action, Some(go));
    let refused: LineAction = Action::GoToPort(GoToPort(SidedPort(Side::In, Port(2, 0))));
    assert!(!d.run_operator_action(refused, Some(2), &mut w, &mut cursor, &mut cell));
    assert_eq!(d.last_action.action, Some(go));
}

#[test]
fn jump_effects_are_carried_out() {
    let mut w = line();
    let mut d = driver();
    let mut cursor = Cursor::Node(0);
    let mut cell = (0, 1);
    assert_eq!(d.apply_jump_effect(JumpEffect::Wait, &mut w, &mut cursor, &mut cell), OperatorFlow::Continue);
    assert_eq!(
        d.apply_jump_effect(JumpEffect::Abort("gx".to_string()), &mut w, &mut cursor, &mut cell),
        OperatorFlow::Abort
    );
    assert_eq!(d.last_op.chord, "gx");
    let p = SidedPort(Side::In, Port(2u32, 0u16));
    assert_eq!(d.apply_jump_effect(JumpEffect::GoToPort(p), &mut w, &mut cursor, &mut cell), OperatorFlow::Continue);
    assert_eq!(cursor, Cursor::Port(p));
    assert_eq!(d.last_action.action, Some(Action::GoToPort(GoToPort(p))));
}

#[test]
fn resuming_create_makes_the_node_and_finishes() {
    let mut w = line();
    let mut d = driver();
    let mut cursor = Cursor::Node(0);
    let mut cell = (4, 5);
    let op: CreateStarted<u32, u16> = CreateStarted(CreatePhase::Yielded("cn".to_string()));
    assert_eq!(d.resume_create(&op, Some(7u8), &mut w, &mut cursor, &mut cell), OperatorFlow::Finish);
    assert_eq!(w.nodes, 4);
    assert_eq!(d.last_op.chord, "cn");
    assert_eq!(d.last_action.action, Some(Action::CreateNode(CreateNode(7, (4, 5)))));
    assert_eq!(d.resume_create(&op, None, &mut w, &mut cursor, &mut cell), OperatorFlow::Finish);
    assert_eq!(w.nodes, 4);
}

#[test]
fn running_create_operator_steps_and_finishes() {
    let mut w = line();
    let mut d = driver();
    let mut cursor = Cursor::Port(SidedPort(Side::In, Port(2u32, 1u16)));
    let mut cell = (20, 1);
    let mut cur: CurrentOperator<Started<u32, u16>> = CurrentOperator::new();
    let mut stashed = Vec::new();
    cur.push(Started::Create(CreateStarted(CreatePhase::Init(String::new()))), "c".to_string(), &mut stashed);
    let handled = d.handle_operator_key(
        &mut cur,
        &mut stashed,
        &mut w,
        &mut cursor,
        &mut cell,
        "ci".to_string(),
        OperatorInput::Create(CreateInput::Op(CreateOut::CreateOpAction(CreateOpAction::Side(Side::In)))),
    );
    assert!(handled);
    assert!(matches!(cur.current, Some((_, Started::Create(CreateStarted(CreatePhase::EdgeConnect(_, _)))))));
    let handled = d.handle_operator_key(
        &mut cur,
        &mut stashed,
        &mut w,
        &mut cursor,
        &mut cell,
        "cia".to_string(),
        OperatorInput::Create(CreateInput::Jump(JumpOut::Accept(SidedPort(Side::Out, Port(1, 1))))),
    );
    assert!(handled);
    assert!(cur.current.is_none());
    assert_eq!(w.created, 1);
    assert_eq!(d.last_op.chord, "cia");
}

#[test]
fn aborted_operator_resumes_the_one_it_interrupted() {
    let mut w = line();
    let mut d = driver();
    let mut cursor = Cursor::FixedPoint((0, 0));
    let mut cell = (0, 0);
    let mut cur: CurrentOperator<Started<u32, u16>> = CurrentOperator::new();
    let mut stashed = Vec::new();
    let jump = JumpState("g".to_string(), vec![SidedPort(Side::In, Port(0u32, 0u16))]);
    cur.push(Started::Jump(JumpToPortStarted(jump)), "g".to_string(), &mut stashed);
    cur.push(Started::Create(CreateStarted(CreatePhase::Init(String::new()))), "c".to_string(), &mut stashed);
    let handled = d.handle_operator_key(
        &mut cur,
        &mut stashed,
        &mut w,
        &mut cursor,
        &mut cell,
        "cq".to_string(),
        OperatorInput::Create(CreateInput::Op(CreateOut::Trap)),
    );
    assert!(!handled);
    assert_eq!(d.last_op.chord, "cq");
    assert!(matches!(cur.current, Some((_, Started::Jump(_)))));
    assert!(stashed.is_empty());
}

#[test]
fn init_operator_pushes_a_started_create() {
    let mut cur: CurrentOperator<Started<u32, u16>> = CurrentOperator::new();
    let mut stashed = Vec::new();
    assert!(!init_operator(&mut cur, &mut stashed, "c".to_string(), Operator::Create(Create), Some(2)));
    assert!(cur.current.is_none());
    assert!(init_operator(&mut cur, &mut stashed, "c".to_string(), Operator::Create(Create), None));
    assert!(matches!(&cur.current, Some((c, Started::Create(CreateStarted(CreatePhase::Init(k))))) if c == "c" && k.is_empty()));
    assert!(!init_operator(&mut cur, &mut stashed, "g".to_string(), Operator::JumpToPort(JumpToPort::Global(Side::In)), Some(1)));
    assert!(stashed.is_empty());
}

#[test]
fn new_driver_starts_at_the_widget_cursor() {
    let w = line();
    let d: GraphWidgetDriver<Line> = GraphWidgetDriver::new(&w);
    assert_eq!(*d.cursor(), Cursor::Node(0));
    assert_eq!(*d.cursor_cell(), (0, 0));
    assert!(!d.view_debug());
    assert!(d.current_operator.current.is_none());
    assert!(d.stashed_operators.is_empty());
}

#[test]
fn status_is_shown_only_when_it_changed() {
    let mut w = line();
    let d = driver();
    let cur: CurrentOperator<Started<u32, u16>> = CurrentOperator::new();
    let before = d.status(&cur, "g".to_string());
    let same = d.status(&cur, "g".to_string());
    assert!(!show_status_change(&mut w, &before, same));
    assert_eq!(w.statuses_shown, 0);
    let after = d.status(&cur, "gg".to_string());
    assert!(show_status_change(&mut w, &before, after));
    assert_eq!(w.statuses_shown, 1);
}
