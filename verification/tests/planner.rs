use std::time::Duration;

use lib_klipper::arcs::{ArcDirection, ArcState, Plane};
use lib_klipper::directive::Directive;
use lib_klipper::firmware_retraction::FirmwareRetractionState;
use lib_klipper::gcode::{parse_gcode, GCodeCommand, GCodeOperation};
use lib_klipper::kind_tracker::KindTracker;
use lib_klipper::lookahead::Junction;
use lib_klipper::planner::{
    Delay, MoveSequence, MoveSequenceOperation, OperationSequence, Outcome, Planner,
    PlanningMove, PlanningOperation, PositionMode, Target, ToolheadState,
};

fn mv(id: usize) -> PlanningMove {
    PlanningMove { id, kind: None, zero_distance: false }
}

fn still(id: usize) -> PlanningMove {
    PlanningMove { id, kind: None, zero_distance: true }
}

fn line(text: &str) -> GCodeCommand {
    parse_gcode(text).unwrap()
}

fn linear(x: Option<&str>, f: Option<&str>, comment: Option<&str>) -> GCodeCommand {
    GCodeCommand {
        op: GCodeOperation::Move {
            x: x.map(String::from),
            y: None,
            z: None,
            e: None,
            f: f.map(String::from),
        },
        comment: comment.map(String::from),
    }
}

fn open() -> Junction {
    Junction { limited: true, rising: true, cruising: true }
}

fn drain(p: &mut Planner) -> Vec<PlanningOperation> {
    let mut out = Vec::new();
    loop {
        let facts = match p.operations.sequence(0) {
            Some(run) => vec![open(); run.len()],
            None => vec![],
        };
        let mut plan = Vec::new();
        match p.next_operation(&facts, &mut plan) {
            Some(op) => out.push(op),
            None => return out,
        }
    }
}

fn finalize(p: &mut Planner) {
    let mut facts = Vec::new();
    for i in 0..p.operations.len() {
        facts.push(match p.operations.sequence(i) {
            Some(run) => vec![open(); run.len()],
            None => vec![],
        });
    }
    p.finalize(&facts);
}

#[test]
fn directives_of_traditional_commands() {
    assert_eq!(Directive::of(&line("G4 P100")), Directive::Dwell);
    for l in ["G28", "M109 S200", "M190 S60", "M600", "TEMPERATURE_WAIT sensor=extruder"] {
        assert_eq!(Directive::of(&line(l)), Directive::Indeterminate, "{}", l);
    }
    assert_eq!(Directive::of(&line("G10")), Directive::Retract);
    assert_eq!(Directive::of(&line("G11")), Directive::Unretract);
    assert_eq!(Directive::of(&line("G2 X1 I1")), Directive::Arc(ArcDirection::Clockwise));
    assert_eq!(Directive::of(&line("G3 X1 I1")), Directive::Arc(ArcDirection::CounterClockwise));
    assert_eq!(Directive::of(&line("G17")), Directive::SelectPlane(Plane::XY));
    assert_eq!(Directive::of(&line("G18")), Directive::SelectPlane(Plane::XZ));
    assert_eq!(Directive::of(&line("G19")), Directive::SelectPlane(Plane::YZ));
    assert_eq!(Directive::of(&line("G92 E0")), Directive::SetOrigin);
    assert_eq!(Directive::of(&line("M82")), Directive::ExtruderMode(PositionMode::Absolute));
    assert_eq!(Directive::of(&line("M83")), Directive::ExtruderMode(PositionMode::Relative));
    assert_eq!(Directive::of(&line("M204 S1000")), Directive::Acceleration);
    for l in ["G1 X1", "G0 X1", "M104 S200", "T0", "G29", "M1", ""] {
        assert_eq!(Directive::of(&line(l)), Directive::Other, "{}", l);
    }
    assert_eq!(Directive::of(&linear(None, None, None)), Directive::LinearMove);
}

#[test]
fn directives_of_extended_commands_and_comments() {
    assert_eq!(Directive::of(&line("SET_VELOCITY_LIMIT ACCEL=1")), Directive::VelocityLimit);
    assert_eq!(Directive::of(&line("set_retraction retract_length=1")), Directive::RetractionSettings);
    assert_eq!(Directive::of(&line("BED_MESH_CALIBRATE")), Directive::Other);
    assert_eq!(Directive::of(&line(";TYPE:Outer wall")), Directive::Label("Outer wall".to_string()));
    assert_eq!(Directive::of(&line("; TYPE:Outer wall")), Directive::Other);
    assert_eq!(
        Directive::of(&line("; ESTIMATOR_ADD_TIME 10.5 Tool change now")),
        Directive::AddTime { seconds: "10.5".to_string(), label: Some("Tool change now".to_string()) }
    );
    assert_eq!(
        Directive::of(&line(";ESTIMATOR_ADD_TIME 3")),
        Directive::AddTime { seconds: "3".to_string(), label: None }
    );
    assert_eq!(
        Directive::of(&line(";ESTIMATOR_ADD_TIME  3")),
        Directive::AddTime { seconds: "".to_string(), label: Some("3".to_string()) }
    );
    assert_eq!(Directive::of(&line(";ESTIMATOR_ADD_TIME")), Directive::Other);
    assert_eq!(Directive::of(&line("; plain")), Directive::Other);
}

#[test]
fn planner_at_the_start() {
    let p = Planner::from_limits(false);
    assert_eq!(p.operations.len(), 0);
    assert_eq!(p.firmware_retraction, None);
    assert_eq!(p.arc_state.get_plane(), Plane::XY);
    assert_eq!(
        p.toolhead_state.position_modes,
        [PositionMode::Absolute, PositionMode::Absolute, PositionMode::Absolute, PositionMode::Relative]
    );
    let p = Planner::from_limits(true);
    assert_eq!(p.firmware_retraction, Some(FirmwareRetractionState::Unretracted));
    assert_eq!(PositionMode::default(), PositionMode::Absolute);
    assert_eq!(Plane::default(), Plane::XY);
    assert_eq!(FirmwareRetractionState::default(), FirmwareRetractionState::Unretracted);
}

#[test]
fn dwell_takes_the_given_length_or_a_quarter_second() {
    let mut p = Planner::from_limits(false);
    assert_eq!(p.process_cmd(&line("G4 P10"), &Outcome::Delay(Duration::from_millis(10))), 1);
    assert_eq!(p.process_cmd(&line("G4"), &Outcome::Nothing), 1);
    assert_eq!(p.process_cmd(&line("G4 Pxx"), &Outcome::Move(mv(0))), 1);
    assert_eq!(
        drain(&mut p),
        [
            PlanningOperation::Delay(Delay::Pause(Duration::from_millis(10))),
            PlanningOperation::Delay(Delay::Pause(Duration::from_millis(250))),
            PlanningOperation::Delay(Delay::Pause(Duration::from_millis(250))),
        ]
    );
}

#[test]
fn waits_of_indeterminate_length_take_a_tenth_second() {
    let mut p = Planner::from_limits(false);
    assert_eq!(p.process_cmd(&line("G28"), &Outcome::Nothing), 1);
    assert_eq!(p.process_cmd(&line("M600"), &Outcome::Delay(Duration::from_secs(9))), 1);
    let ops = drain(&mut p);
    assert_eq!(ops.len(), 2);
    for op in ops {
        match op {
            PlanningOperation::Delay(d @ Delay::Indeterminate(_, kind)) => {
                assert_eq!(d.duration(), Duration::from_millis(100));
                assert_eq!(p.kind_str(&kind), Some("Indeterminate time"));
            }
            other => panic!("{:?}", other),
        }
    }
}

#[test]
fn linear_move_is_labelled_by_its_comment() {
    let mut p = Planner::from_limits(false);
    let n = p.process_cmd(&linear(Some("10"), None, Some(" wall ")), &Outcome::Move(mv(3)));
    assert_eq!(n, 1);
    assert_eq!(p.operations.last_move().map(|m| m.id), Some(3));
    finalize(&mut p);
    let ops = drain(&mut p);
    assert_eq!(ops.len(), 1);
    assert!(ops[0].is_move() && !ops[0].is_fill());
    let m = ops[0].get_move().unwrap();
    assert_eq!(m.id, 3);
    assert!(!m.is_zero_distance());
    assert_eq!(p.move_kind_str(&m), Some("wall"));
}

#[test]
fn linear_move_without_axis_holds_a_place() {
    let mut p = Planner::from_limits(false);
    assert_eq!(p.process_cmd(&linear(None, Some("3000"), None), &Outcome::Move(mv(0))), 1);
    assert_eq!(p.process_cmd(&linear(Some("1"), None, None), &Outcome::Nothing), 1);
    assert_eq!(p.process_cmd(&linear(Some("1"), None, None), &Outcome::Move(still(1))), 1);
    assert_eq!(p.operations.last_move(), None);
    let ops = drain(&mut p);
    assert_eq!(ops, [PlanningOperation::Fill, PlanningOperation::Fill, PlanningOperation::Fill]);
    assert_eq!(ops[0].get_move(), None);
}

#[test]
fn current_label_is_inherited() {
    let mut p = Planner::from_limits(false);
    assert_eq!(p.process_cmd(&line(";TYPE:Infill"), &Outcome::Nothing), 1);
    p.process_cmd(&linear(Some("1"), None, None), &Outcome::Move(mv(0)));
    p.process_cmd(&linear(Some("2"), None, Some("travel")), &Outcome::Move(mv(1)));
    p.process_cmd(&linear(Some("3"), None, None), &Outcome::Move(mv(2)));
    finalize(&mut p);
    let labels: Vec<Option<String>> = drain(&mut p)
        .iter()
        .map(|o| o.get_move().and_then(|m| p.move_kind_str(&m).map(String::from)))
        .collect();
    assert_eq!(
        labels,
        [None, Some("Infill".to_string()), Some("travel".to_string()), Some("Infill".to_string())]
    );
}

#[test]
fn added_time_needs_a_number() {
    let mut p = Planner::from_limits(false);
    let cmd = line(";ESTIMATOR_ADD_TIME 20 Heat up");
    assert_eq!(p.process_cmd(&cmd, &Outcome::Delay(Duration::from_secs(20))), 1);
    assert_eq!(p.process_cmd(&line(";ESTIMATOR_ADD_TIME 5"), &Outcome::Delay(Duration::from_secs(5))), 1);
    assert_eq!(p.process_cmd(&line(";ESTIMATOR_ADD_TIME x Label"), &Outcome::Nothing), 1);
    let ops = drain(&mut p);
    match ops[0] {
        PlanningOperation::Delay(Delay::Indeterminate(d, kind)) => {
            assert_eq!(d, Duration::from_secs(20));
            assert_eq!(p.kind_str(&kind), Some("Heat up"));
        }
        other => panic!("{:?}", other),
    }
    assert_eq!(ops[1], PlanningOperation::Delay(Delay::Indeterminate(Duration::from_secs(5), None)));
    assert_eq!(ops[2], PlanningOperation::Fill);
    let mut kt = KindTracker::new();
    let first = kt.get_kind("a");
    let second = kt.get_kind("b");
    assert_eq!(p.kind_tracker.get_kind("Heat up"), first);
    assert_eq!(p.kind_tracker.get_kind("Label"), second);
}

#[test]
fn retraction_in_the_wrong_state_does_nothing() {
    let mut p = Planner::from_limits(true);
    assert_eq!(p.process_cmd(&line("G11"), &Outcome::Retraction(Some(mv(0)), Some(mv(1)))), 0);
    assert_eq!(p.operations.len(), 0);
    assert_eq!(p.process_cmd(&line("G10"), &Outcome::Retraction(None, Some(mv(2)))), 1);
    assert_eq!(p.process_cmd(&line("G10"), &Outcome::Retraction(Some(mv(3)), None)), 0);
    assert_eq!(p.process_cmd(&line("G11"), &Outcome::Nothing), 0);
    assert_eq!(p.firmware_retraction, Some(FirmwareRetractionState::Unretracted));
    finalize(&mut p);
    let ops = drain(&mut p);
    assert_eq!(ops.len(), 1);
    let m = ops[0].get_move().unwrap();
    assert_eq!(m.id, 2);
    assert_eq!(p.move_kind_str(&m), Some("Firmware retract Z hop"));
}

#[test]
fn retraction_states_on_their_own() {
    let mut state = FirmwareRetractionState::Unretracted;
    let mut kt = KindTracker::new();
    let mut ops = OperationSequence::new();
    assert_eq!(state.unretract(&mut kt, &mut ops, Some(mv(0)), None), 0);
    assert_eq!(state.retract(&mut kt, &mut ops, Some(mv(1)), Some(mv(2))), 2);
    assert_eq!(state, FirmwareRetractionState::Retracted);
    assert_eq!(state.retract(&mut kt, &mut ops, Some(mv(3)), Some(mv(4))), 0);
    assert_eq!(state.unretract(&mut kt, &mut ops, None, None), 0);
    assert_eq!(state, FirmwareRetractionState::Unretracted);
    assert_eq!(ops.len(), 1);
    assert_eq!(ops.sequence(0).unwrap().len(), 2);
    assert_eq!(ops.last_move().map(|m| m.id), Some(2));
    assert_eq!(kt.resolve_kind(ops.last_move().unwrap().kind.unwrap()), "Firmware retract Z hop");
}

#[test]
fn arc_adds_its_segments() {
    let mut p = Planner::from_limits(false);
    let cmd = line("G2 X1 I1 ; round");
    assert_eq!(p.process_cmd(&cmd, &Outcome::Arc(vec![mv(0), still(1), mv(2)])), 3);
    assert_eq!(p.process_cmd(&cmd, &Outcome::Arc(vec![])), 0);
    assert_eq!(p.process_cmd(&cmd, &Outcome::Nothing), 0);
    assert_eq!(p.operations.len(), 1);
    finalize(&mut p);
    let ops = drain(&mut p);
    assert_eq!(ops.len(), 3);
    assert_eq!(ops[1], PlanningOperation::Fill);
    for i in [0, 2] {
        let m = ops[i].get_move().unwrap();
        assert_eq!(m.id, i);
        assert_eq!(p.move_kind_str(&m), Some("round"));
    }
    let arcs = ArcState::default();
    let mut stream = OperationSequence::new();
    assert_eq!(arcs.generate_arc(&mut stream, None, &vec![mv(5), mv(6)]), 2);
    assert_eq!(stream.sequence(0).unwrap().len(), 2);
}

#[test]
fn planes_and_their_axes() {
    assert_eq!(Plane::XY.axes(), (0, 1, 2));
    assert_eq!(Plane::XZ.axes(), (0, 2, 1));
    assert_eq!(Plane::YZ.axes(), (1, 2, 0));
    assert_eq!(Plane::XY.offsets(), ('I', 'J'));
    assert_eq!(Plane::XZ.offsets(), ('I', 'K'));
    assert_eq!(Plane::YZ.offsets(), ('J', 'K'));
    let mut arcs = ArcState::default();
    arcs.set_plane(Plane::YZ);
    assert_eq!(arcs.get_plane(), Plane::YZ);
    let mut p = Planner::from_limits(false);
    assert_eq!(p.process_cmd(&line("G19"), &Outcome::Nothing), 1);
    assert_eq!(p.arc_state.get_plane(), Plane::YZ);
}

#[test]
fn targets_follow_the_modes() {
    let mut t = ToolheadState::new();
    assert_eq!(
        t.perform_move([true, false, true, true], false),
        [Target::Replace, Target::Keep, Target::Replace, Target::Add]
    );
    assert_eq!(
        t.perform_move([true, true, false, true], true),
        [Target::Add, Target::Add, Target::Keep, Target::Add]
    );
    t.set_extruder_mode(PositionMode::Absolute);
    assert_eq!(t.perform_move([false, false, false, true], false)[3], Target::Replace);
}

#[test]
fn other_commands_hold_one_place_each() {
    let mut p = Planner::from_limits(true);
    for l in ["M204 S100", "G92 X0", "SET_VELOCITY_LIMIT ACCEL=5", "SET_RETRACTION RETRACT_LENGTH=2", "M117 x", "; note", "", "G1 X5"] {
        assert_eq!(p.process_cmd(&line(l), &Outcome::Move(mv(0))), 1, "{}", l);
    }
    assert_eq!(p.operations.len(), 8);
    assert_eq!(drain(&mut p), vec![PlanningOperation::Fill; 8]);
}

#[test]
fn fills_join_the_run_at_the_end() {
    let mut ops = OperationSequence::new();
    ops.add_fill();
    ops.add_move(mv(0));
    ops.add_fill();
    ops.add_move(still(1));
    ops.add_delay(Delay::Pause(Duration::from_millis(1)));
    ops.add_fill();
    ops.add_move(still(2));
    assert_eq!(ops.len(), 5);
    assert!(ops.sequence(0).is_none());
    assert_eq!(ops.sequence(1).unwrap().len(), 3);
    assert!(ops.sequence(2).is_none());
    assert!(ops.sequence(3).is_none());
    assert_eq!(ops.sequence(4).unwrap().len(), 1);
    assert!(ops.sequence(5).is_none());
    assert_eq!(ops.sequence(4).unwrap().get(0), Some(MoveSequenceOperation::Fill));
    assert_eq!(ops.last_move(), None);
}

#[test]
fn moves_wait_for_their_plan() {
    let mut ops = OperationSequence::new();
    ops.add_move(mv(0));
    ops.add_fill();
    ops.add_move(mv(1));
    ops.add_delay(Delay::Pause(Duration::from_millis(1)));
    let none = Junction { limited: false, rising: false, cruising: false };
    let mut plan = Vec::new();
    assert_eq!(ops.next_operation(&vec![none; 3], &mut plan), None);
    assert!(plan.is_empty());
    assert_eq!(ops.len(), 2);
    let plans = ops.flush(&vec![vec![open(); 3], vec![]]);
    assert_eq!(plans.len(), 2);
    assert_eq!(plans[0].iter().map(|p| p.idx).collect::<Vec<_>>(), [2, 0]);
    assert!(plans[1].is_empty());
    assert_eq!(ops.sequence(0).unwrap().flush_count(), 3);
    let mut out = Vec::new();
    while let Some(op) = ops.next_operation(&vec![open(); ops.sequence(0).map_or(0, |r| r.len())], &mut plan) {
        out.push(op);
    }
    assert!(plan.is_empty());
    assert_eq!(out.len(), 4);
    assert_eq!(out[1], PlanningOperation::Fill);
    assert!(matches!(out[3], PlanningOperation::Delay(_)));
    assert_eq!(ops.len(), 0);
}

#[test]
fn leading_fills_leave_a_run_at_once() {
    let mut run = MoveSequence::new();
    assert!(run.is_empty());
    run.add_fill();
    run.add_fill();
    run.add_move(mv(0));
    assert_eq!(run.last_move().map(|m| m.id), Some(0));
    let none = Junction { limited: false, rising: false, cruising: false };
    let mut plan = Vec::new();
    assert_eq!(run.next_move(&vec![none; 3], &mut plan), Some(PlanningOperation::Fill));
    assert_eq!(run.flush_count(), 1);
    assert_eq!(run.next_move(&vec![none; 2], &mut plan), Some(PlanningOperation::Fill));
    assert_eq!(run.next_move(&vec![none; 1], &mut plan), None);
    assert_eq!(run.len(), 1);
    run.flush(&vec![open()], &mut plan);
    assert_eq!(plan.len(), 1);
    assert_eq!(run.next_move(&vec![open()], &mut plan).and_then(|o| o.get_move()), Some(mv(0)));
    assert!(run.is_empty());
    assert_eq!(run.get(0), None);
    assert_eq!(MoveSequenceOperation::Fill.into_operation(), PlanningOperation::Fill);
    assert!(MoveSequenceOperation::Fill.is_fill());
}
