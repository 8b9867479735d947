use std::collections::VecDeque;

use lib_klipper::lookahead::{Junction, Lookahead, Planned};
use lib_klipper::planner::{MoveSequence, MoveSequenceOperation, PlanningMove};

fn j(limited: bool, rising: bool, cruising: bool) -> Junction {
    Junction { limited, rising, cruising }
}

fn run_of(n: usize) -> MoveSequence {
    let mut run = MoveSequence::new();
    for id in 0..n {
        run.add_move(PlanningMove { id, kind: None, zero_distance: false });
    }
    run
}

fn planned(idx: usize, peak: Option<usize>, delayed: bool) -> Planned {
    Planned { idx, peak, delayed }
}

#[test]
fn sweep_walks_the_moves_backwards() {
    let mut moves = VecDeque::new();
    for (i, fill) in [false, true, false, true, true, false, true].into_iter().enumerate() {
        moves.push_back(if fill {
            MoveSequenceOperation::Fill
        } else {
            MoveSequenceOperation::Move(PlanningMove { id: i, kind: None, zero_distance: false })
        });
    }
    let mut la = Lookahead::start(7, 1, true);
    assert_eq!(la.next(&moves).map(|(i, m)| (i, m.id)), Some((5, 5)));
    assert_eq!(la.next(&moves).map(|(i, m)| (i, m.id)), Some((2, 2)));
    assert_eq!(la.next(&moves), None);
    assert_eq!(la.next(&moves), None);
    let mut la = Lookahead::start(7, 1, false);
    let mut seen = Vec::new();
    while let Some((i, _)) = la.next(&moves) {
        seen.push(i);
    }
    assert_eq!(seen, [5, 2, 0]);
}

#[test]
fn full_sweep_plans_every_move() {
    let mut run = run_of(5);
    let facts = vec![
        j(true, true, true),
        j(false, false, true),
        j(false, false, true),
        j(true, false, true),
        j(true, true, true),
    ];
    let mut plan = Vec::new();
    run.process(false, &facts, &mut plan);
    assert_eq!(run.flush_count(), 5);
    assert_eq!(
        plan,
        [
            planned(4, Some(4), false),
            planned(3, Some(4), false),
            planned(1, Some(0), true),
            planned(2, Some(0), true),
            planned(0, Some(0), false),
        ]
    );
    let mut again = Vec::new();
    run.process(false, &facts, &mut again);
    assert!(again.is_empty());
}

#[test]
fn partial_sweep_stops_at_the_second_peak() {
    let mut run = run_of(6);
    let facts = vec![
        j(true, true, true),
        j(false, false, true),
        j(true, true, true),
        j(false, false, true),
        j(true, true, true),
        j(false, false, true),
    ];
    let mut plan = Vec::new();
    run.process(true, &facts, &mut plan);
    assert_eq!(run.flush_count(), 2);
    assert_eq!(plan, [planned(1, Some(0), true), planned(0, Some(0), false)]);
}

#[test]
fn partial_sweep_without_a_second_peak_finds_nothing() {
    let mut run = run_of(3);
    let facts = vec![j(true, true, true), j(false, false, true), j(false, true, true)];
    let mut plan = Vec::new();
    run.process(true, &facts, &mut plan);
    assert_eq!(run.flush_count(), 0);
    assert!(plan.is_empty());
}

#[test]
fn peak_without_cruise_velocity_does_not_count() {
    let mut run = run_of(3);
    let facts = vec![j(true, true, true), j(true, true, true), j(true, true, false)];
    let mut plan = Vec::new();
    run.process(true, &facts, &mut plan);
    assert_eq!(run.flush_count(), 0);
    assert!(plan.is_empty());
    let facts = vec![j(true, true, true), j(true, true, true), j(true, true, true)];
    run.process(true, &facts, &mut plan);
    assert_eq!(run.flush_count(), 1);
    assert_eq!(plan, [planned(0, Some(0), false)]);
}

#[test]
fn partial_sweep_leaves_final_moves_alone() {
    let mut run = run_of(4);
    let mut plan = Vec::new();
    let facts = vec![j(true, true, true), j(true, true, true), j(true, true, true), j(true, true, true)];
    run.process(true, &facts, &mut plan);
    assert_eq!(run.flush_count(), 2);
    assert_eq!(plan, [planned(1, Some(1), false), planned(0, Some(0), false)]);
    run.add_move(PlanningMove { id: 4, kind: None, zero_distance: false });
    let facts = vec![j(true, true, true); 5];
    let mut more = Vec::new();
    run.process(true, &facts, &mut more);
    assert_eq!(run.flush_count(), 3);
    assert_eq!(more, [planned(2, Some(2), false)]);
}

#[test]
fn limited_move_that_opens_no_peak_is_planned_under_the_last() {
    let mut la = Lookahead::start(3, 0, false);
    let mut plan = Vec::new();
    la.visit(2, j(true, false, true), &mut plan);
    assert_eq!(plan, [planned(2, None, false)]);
    la.visit(1, j(true, true, true), &mut plan);
    la.visit(0, j(true, false, true), &mut plan);
    assert_eq!(plan[1..], [planned(1, Some(1), false), planned(0, Some(1), false)]);
    assert_eq!(la.result(), 3);
}
