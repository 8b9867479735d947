use std::time::Duration;

use lib_klipper::arcs::{ArcDirection, Plane};
use lib_klipper::directive::Directive;
use lib_klipper::firmware_retraction::FirmwareRetractionState;
use lib_klipper::gcode::{parse_gcode, GCodeCommand, GCodeOperation};
use lib_klipper::lookahead::{Junction, Planned};
use lib_klipper::planner::{
    Delay, MoveSequence, MoveSequenceOperation, Outcome, Planner, PlanningMove,
    PlanningOperation, Target,
};
use lib_klipper::sync::CommandBuffer;

#[derive(Debug, Clone, Copy)]
struct Retraction {
    retract_length: f64,
    unretract_extra_length: f64,
    retract_speed: f64,
    unretract_speed: f64,
    lift_z: f64,
}

#[derive(Debug, Clone, Copy)]
struct Limits {
    max_velocity: f64,
    max_acceleration: f64,
    max_accel_to_decel: f64,
    square_corner_velocity: f64,
    junction_deviation: f64,
    instant_corner_velocity: f64,
    mm_per_arc_segment: Option<f64>,
    retraction: Option<Retraction>,
}

fn limits(v: f64, a: f64, scv: f64) -> Limits {
    Limits {
        max_velocity: v,
        max_acceleration: a,
        max_accel_to_decel: a * 0.5,
        square_corner_velocity: scv,
        junction_deviation: scv * scv * (2.0f64.sqrt() - 1.0) / a,
        instant_corner_velocity: 1.0,
        mm_per_arc_segment: None,
        retraction: None,
    }
}

#[derive(Debug, Clone, Copy)]
struct Move {
    start: [f64; 4],
    end: [f64; 4],
    distance: f64,
    rate: [f64; 4],
    acceleration: f64,
    junction_deviation: f64,
    max_start_v2: f64,
    max_cruise_v2: f64,
    max_dv2: f64,
    max_smoothed_v2: f64,
    smoothed_dv2: f64,
    start_v: f64,
    cruise_v: f64,
    end_v: f64,
}

impl Move {
    fn new(start: [f64; 4], end: [f64; 4], velocity: f64, l: &Limits) -> Move {
        let kinematic = start[..3] != end[..3];
        let mut m = Move {
            start,
            end,
            distance: 0.0,
            rate: [0.0; 4],
            acceleration: f64::MAX,
            junction_deviation: l.junction_deviation,
            max_start_v2: 0.0,
            max_cruise_v2: velocity * velocity,
            max_dv2: f64::MAX,
            max_smoothed_v2: 0.0,
            smoothed_dv2: f64::MAX,
            start_v: 0.0,
            cruise_v: 0.0,
            end_v: 0.0,
        };
        if kinematic {
            let d: f64 = (0..3).map(|i| (end[i] - start[i]).powi(2)).sum::<f64>().sqrt();
            let v = velocity.min(l.max_velocity);
            m.distance = d;
            for i in 0..4 {
                m.rate[i] = (end[i] - start[i]) / d;
            }
            m.acceleration = l.max_acceleration;
            m.max_cruise_v2 = v * v;
            m.max_dv2 = 2.0 * d * l.max_acceleration;
            m.smoothed_dv2 = 2.0 * d * l.max_accel_to_decel;
        } else {
            let de = end[3] - start[3];
            m.distance = de.abs();
            if m.distance > 0.0 {
                m.rate[3] = de / m.distance;
            }
        }
        m
    }

    fn is_kinematic(&self) -> bool {
        self.start[..3] != self.end[..3]
    }

    fn apply_junction(&mut self, prev: &Move, l: &Limits) {
        if !self.is_kinematic() || !prev.is_kinematic() {
            return;
        }
        let dot: f64 = (0..3).map(|i| self.rate[i] * prev.rate[i]).sum();
        let mut cos_theta = -dot;
        if cos_theta > 0.999999 {
            return;
        }
        cos_theta = cos_theta.max(-0.999999);
        let sin_theta_d2 = (0.5 * (1.0 - cos_theta)).sqrt();
        let r = sin_theta_d2 / (1.0 - sin_theta_d2);
        let tan_theta_d2 = sin_theta_d2 / (0.5 * (1.0 + cos_theta)).sqrt();
        let diff_r = (self.rate[3] - prev.rate[3]).abs();
        let extruder_v2 = if diff_r > 0.0 {
            (l.instant_corner_velocity / diff_r).powi(2)
        } else {
            self.max_cruise_v2
        };
        self.max_start_v2 = extruder_v2
            .min(r * self.junction_deviation * self.acceleration)
            .min(r * prev.junction_deviation * prev.acceleration)
            .min(0.5 * self.distance * tan_theta_d2 * self.acceleration)
            .min(0.5 * prev.distance * tan_theta_d2 * prev.acceleration)
            .min(self.max_cruise_v2)
            .min(prev.max_cruise_v2)
            .min(prev.max_start_v2 + prev.max_dv2);
        self.max_smoothed_v2 =
            self.max_start_v2.min(prev.max_smoothed_v2 + prev.smoothed_dv2);
    }

    fn set_junction(&mut self, start_v2: f64, cruise_v2: f64, end_v2: f64) {
        self.start_v = start_v2.sqrt();
        self.cruise_v = cruise_v2.sqrt();
        self.end_v = end_v2.sqrt();
    }

    fn accel_distance(&self) -> f64 {
        (self.cruise_v * self.cruise_v - self.start_v * self.start_v) * 0.5 / self.acceleration
    }

    fn decel_distance(&self) -> f64 {
        (self.cruise_v * self.cruise_v - self.end_v * self.end_v) * 0.5 / self.acceleration
    }

    fn cruise_distance(&self) -> f64 {
        (self.distance - self.accel_distance() - self.decel_distance()).max(0.0)
    }

    fn accel_time(&self) -> f64 {
        self.accel_distance() / ((self.start_v + self.cruise_v) * 0.5)
    }

    fn cruise_time(&self) -> f64 {
        self.cruise_distance() / self.cruise_v
    }

    fn decel_time(&self) -> f64 {
        self.decel_distance() / ((self.end_v + self.cruise_v) * 0.5)
    }

    fn total_time(&self) -> f64 {
        self.accel_time() + self.cruise_time() + self.decel_time()
    }
}

#[derive(Debug, Clone, Copy, Default)]
struct Reach {
    start_v2: f64,
    reachable_start_v2: f64,
    end_v2: f64,
    peak_cruise_v2: f64,
}

#[derive(Debug)]
enum Emitted {
    Delay(Delay),
    Move(Move, PlanningMove),
    Fill,
}

struct Engine {
    planner: Planner,
    limits: Limits,
    position: [f64; 4],
    velocity: f64,
    moves: Vec<Move>,
    retracted: Option<(f64, f64)>,
}

fn number(text: &str) -> Option<f64> {
    lexical_core::parse::<f64>(text.as_bytes()).ok()
}

fn read(line: &str) -> GCodeCommand {
    let cmd = parse_gcode(line).expect("a command");
    let numeric: Vec<bool> = match &cmd.op {
        GCodeOperation::Traditional { params, .. } => {
            (0..params.len()).map(|i| number(params.get(i).1).is_some()).collect()
        }
        _ => Vec::new(),
    };
    cmd.resolve(&numeric)
}

impl Engine {
    fn new(limits: Limits) -> Engine {
        Engine {
            planner: Planner::from_limits(limits.retraction.is_some()),
            limits,
            position: [0.0; 4],
            velocity: limits.max_velocity,
            moves: Vec::new(),
            retracted: None,
        }
    }

    fn make_move(
        &mut self,
        axes: [Option<f64>; 4],
        relative: bool,
        prev: &mut Option<usize>,
    ) -> PlanningMove {
        let given = [axes[0].is_some(), axes[1].is_some(), axes[2].is_some(), axes[3].is_some()];
        let targets = self.planner.toolhead_state.perform_move(given, relative);
        let mut end = self.position;
        for i in 0..4 {
            match targets[i] {
                Target::Keep => {}
                Target::Replace => end[i] = axes[i].unwrap(),
                Target::Add => end[i] += axes[i].unwrap(),
            }
        }
        let mut m = Move::new(self.position, end, self.velocity, &self.limits);
        self.position = end;
        let zero_distance = m.distance == 0.0;
        if !zero_distance {
            if let Some(p) = *prev {
                let before = self.moves[p];
                m.apply_junction(&before, &self.limits);
            }
            *prev = Some(self.moves.len());
        }
        self.moves.push(m);
        PlanningMove { id: self.moves.len() - 1, kind: None, zero_distance }
    }

    fn arc(&mut self, cmd: &GCodeCommand, direction: ArcDirection, prev: &mut Option<usize>) -> Vec<PlanningMove> {
        let params = match &cmd.op {
            GCodeOperation::Traditional { params, .. } => params,
            _ => return vec![],
        };
        let mm_per_arc_segment = match self.limits.mm_per_arc_segment {
            Some(v) => v,
            None => return vec![],
        };
        let get = |c: char| params.get_string(c).and_then(number);
        let plane = self.planner.arc_state.get_plane();
        let (alpha, beta, helical) = plane.axes();
        let (first, second) = plane.offsets();
        let offset = (get(first).unwrap_or(0.0), get(second).unwrap_or(0.0));
        if offset.0 == 0.0 && offset.1 == 0.0 {
            return vec![];
        }
        let given = [get('X'), get('Y'), get('Z'), get('E')];
        let targets = self.planner.toolhead_state.perform_move(
            [given[0].is_some(), given[1].is_some(), given[2].is_some(), given[3].is_some()],
            false,
        );
        let mut target = self.position;
        for i in 0..4 {
            match targets[i] {
                Target::Keep => {}
                Target::Replace => target[i] = given[i].unwrap(),
                Target::Add => target[i] += given[i].unwrap(),
            }
        }
        if let Some(f) = get('F') {
            self.velocity = f / 60.0;
        }
        let start = self.position;
        let r_p = -offset.0;
        let r_q = -offset.1;
        let center_p = start[alpha] - r_p;
        let center_q = start[beta] - r_q;
        let rt_alpha = target[alpha] - center_p;
        let rt_beta = target[beta] - center_q;
        let mut angular =
            (r_p * rt_beta - r_q * rt_alpha).atan2(r_p * rt_alpha + r_q * rt_beta);
        if angular < 0.0 {
            angular += 2.0 * std::f64::consts::PI;
        }
        if direction == ArcDirection::Clockwise {
            angular -= 2.0 * std::f64::consts::PI;
        }
        if angular == 0.0 && start[alpha] == target[alpha] && start[beta] == target[beta] {
            angular = 2.0 * std::f64::consts::PI;
        }
        let linear = target[helical] - start[helical];
        let flat = r_p.hypot(r_q) * angular;
        let travel = if linear != 0.0 { flat.hypot(linear) } else { flat.abs() };
        let segments = ((travel / mm_per_arc_segment).floor() as usize).max(1);
        let theta = angular / segments as f64;
        let climb = linear / segments as f64;
        let e_per_move =
            if given[3].is_some() { (target[3] - start[3]) / segments as f64 } else { 0.0 };
        let mut e = start[3];
        let mut out = Vec::new();
        for i in 1..=segments {
            let mut point = [0.0; 3];
            if i == segments {
                point.copy_from_slice(&target[..3]);
            } else {
                let t = i as f64 * theta;
                point[alpha] = center_p + (-offset.0 * t.cos() + offset.1 * t.sin());
                point[beta] = center_q + (-offset.0 * t.sin() - offset.1 * t.cos());
                point[helical] = start[helical] + i as f64 * climb;
            }
            e += e_per_move;
            let end = [point[0], point[1], point[2], e];
            let mut m = Move::new(self.position, end, self.velocity, &self.limits);
            self.position = end;
            let zero_distance = m.distance == 0.0;
            if !zero_distance {
                if let Some(p) = *prev {
                    let before = self.moves[p];
                    m.apply_junction(&before, &self.limits);
                }
                *prev = Some(self.moves.len());
            }
            self.moves.push(m);
            out.push(PlanningMove { id: self.moves.len() - 1, kind: None, zero_distance });
        }
        out
    }

    fn synthetic(&mut self, axis: usize, by: f64, speed: Option<f64>, prev: &mut Option<usize>) -> PlanningMove {
        let saved = self.velocity;
        if let Some(v) = speed {
            self.velocity = v;
        }
        let mut axes = [None; 4];
        axes[axis] = Some(by);
        let m = self.make_move(axes, true, prev);
        self.velocity = saved;
        m
    }

    fn process(&mut self, line: &str) -> usize {
        let cmd = read(line);
        self.process_cmd(&cmd)
    }

    fn process_cmd(&mut self, cmd: &GCodeCommand) -> usize {
        let mut prev = self.planner.operations.last_move().map(|m| m.id);
        let outcome = match Directive::of(cmd) {
            Directive::LinearMove => match &cmd.op {
                GCodeOperation::Move { x, y, z, e, f } => {
                    if let Some(v) = f.as_deref().and_then(number) {
                        assert!(v / 60.0 > 0.0);
                        self.velocity = v / 60.0;
                    }
                    let axes = [
                        x.as_deref().and_then(number),
                        y.as_deref().and_then(number),
                        z.as_deref().and_then(number),
                        e.as_deref().and_then(number),
                    ];
                    if axes.iter().any(|a| a.is_some()) {
                        Outcome::Move(self.make_move(axes, false, &mut prev))
                    } else {
                        Outcome::Nothing
                    }
                }
                _ => Outcome::Nothing,
            },
            Directive::Dwell => match &cmd.op {
                GCodeOperation::Traditional { params, .. } => {
                    match params.get_string('P').and_then(number) {
                        Some(ms) => Outcome::Delay(Duration::from_secs_f64(ms / 1000.0)),
                        None => Outcome::Nothing,
                    }
                }
                _ => Outcome::Nothing,
            },
            Directive::AddTime { seconds, .. } => match seconds.parse::<f64>() {
                Ok(s) => Outcome::Delay(Duration::from_secs_f64(s)),
                Err(_) => Outcome::Nothing,
            },
            Directive::Retract => match (self.limits.retraction, self.planner.firmware_retraction) {
                (Some(r), Some(FirmwareRetractionState::Unretracted)) => {
                    let length = if r.retract_length > 0.0 {
                        Some(self.synthetic(3, -r.retract_length, Some(r.retract_speed), &mut prev))
                    } else {
                        None
                    };
                    let hop = if r.lift_z > 0.0 {
                        Some(self.synthetic(2, r.lift_z, None, &mut prev))
                    } else {
                        None
                    };
                    self.retracted = Some((r.lift_z, r.retract_length + r.unretract_extra_length));
                    Outcome::Retraction(length, hop)
                }
                _ => Outcome::Nothing,
            },
            Directive::Unretract => match (self.limits.retraction, self.planner.firmware_retraction, self.retracted) {
                (Some(r), Some(FirmwareRetractionState::Retracted), Some((lifted, length))) => {
                    let forward = if length > 0.0 {
                        Some(self.synthetic(3, length, Some(r.unretract_speed), &mut prev))
                    } else {
                        None
                    };
                    let hop = if lifted > 0.0 {
                        Some(self.synthetic(2, -lifted, None, &mut prev))
                    } else {
                        None
                    };
                    self.retracted = None;
                    Outcome::Retraction(forward, hop)
                }
                _ => Outcome::Nothing,
            },
            Directive::Arc(direction) => Outcome::Arc(self.arc(cmd, direction, &mut prev)),
            Directive::SetOrigin => {
                if let GCodeOperation::Traditional { params, .. } = &cmd.op {
                    for (i, c) in ['X', 'Y', 'Z', 'E'].into_iter().enumerate() {
                        if let Some(v) = params.get_string(c).and_then(number) {
                            self.position[i] = v;
                        }
                    }
                }
                Outcome::Nothing
            }
            _ => Outcome::Nothing,
        };
        self.planner.process_cmd(cmd, &outcome)
    }

    fn reports(&self, run: &MoveSequence, partial: bool) -> (Vec<Junction>, Vec<Reach>, Vec<Option<usize>>) {
        let n = run.len();
        let mut facts = vec![Junction { limited: false, rising: false, cruising: false }; n];
        let mut reach = vec![Reach::default(); n];
        let mut ids = vec![None; n];
        let floor = if partial { run.flush_count() } else { 0 };
        let mut next_end_v2 = 0.0;
        let mut next_smoothed_v2 = 0.0;
        for idx in (floor..n).rev() {
            if let Some(MoveSequenceOperation::Move(pm)) = run.get(idx) {
                let m = &self.moves[pm.id];
                ids[idx] = Some(pm.id);
                let reachable_start_v2 = next_end_v2 + m.max_dv2;
                let start_v2 = m.max_start_v2.min(reachable_start_v2);
                let reachable_smoothed_v2 = next_smoothed_v2 + m.smoothed_dv2;
                let smoothed_v2 = m.max_smoothed_v2.min(reachable_smoothed_v2);
                let peak = m.max_cruise_v2.min((smoothed_v2 + reachable_smoothed_v2) * 0.5);
                facts[idx] = Junction {
                    limited: smoothed_v2 < reachable_smoothed_v2,
                    rising: smoothed_v2 + m.smoothed_dv2 > next_smoothed_v2,
                    cruising: peak != 0.0,
                };
                reach[idx] = Reach {
                    start_v2,
                    reachable_start_v2,
                    end_v2: next_end_v2,
                    peak_cruise_v2: peak,
                };
                next_end_v2 = start_v2;
                next_smoothed_v2 = smoothed_v2;
            }
        }
        (facts, reach, ids)
    }

    fn apply(&mut self, plan: &[Planned], reach: &[Reach], ids: &[Option<usize>]) {
        let mut chain: Option<usize> = None;
        let mut mc_v2 = 0.0;
        for p in plan {
            let f = reach[p.idx];
            let m = &mut self.moves[ids[p.idx].expect("a move")];
            if p.delayed {
                let peak = p.peak.expect("a peak");
                if chain != Some(peak) {
                    chain = Some(peak);
                    mc_v2 = reach[peak].peak_cruise_v2;
                }
                mc_v2 = mc_v2.min(f.start_v2);
                m.set_junction(f.start_v2.min(mc_v2), mc_v2, f.end_v2.min(mc_v2));
            } else {
                chain = None;
                let peak_v2 = p.peak.map_or(0.0, |i| reach[i].peak_cruise_v2);
                let cruise_v2 = ((f.start_v2 + f.reachable_start_v2) * 0.5)
                    .min(m.max_cruise_v2)
                    .min(peak_v2);
                m.set_junction(f.start_v2.min(cruise_v2), cruise_v2, f.end_v2.min(cruise_v2));
            }
        }
    }

    fn finalize(&mut self) {
        let mut all_facts = Vec::new();
        let mut all_reach = Vec::new();
        for i in 0..self.planner.operations.len() {
            match self.planner.operations.sequence(i) {
                Some(run) => {
                    let (facts, reach, ids) = self.reports(run, false);
                    all_facts.push(facts);
                    all_reach.push((reach, ids));
                }
                None => {
                    all_facts.push(vec![]);
                    all_reach.push((vec![], vec![]));
                }
            }
        }
        let plans = self.planner.finalize(&all_facts);
        for (plan, (reach, ids)) in plans.iter().zip(all_reach.iter()) {
            self.apply(plan, reach, ids);
        }
    }

    fn next(&mut self) -> Option<Emitted> {
        let (facts, reach, ids) = match self.planner.operations.sequence(0) {
            Some(run) => self.reports(run, true),
            None => (vec![], vec![], vec![]),
        };
        let mut plan = Vec::new();
        let op = self.planner.next_operation(&facts, &mut plan);
        self.apply(&plan, &reach, &ids);
        match op? {
            PlanningOperation::Delay(d) => Some(Emitted::Delay(d)),
            PlanningOperation::Move(pm) => Some(Emitted::Move(self.moves[pm.id], pm)),
            PlanningOperation::Fill => Some(Emitted::Fill),
        }
    }

    fn drain(&mut self) -> Vec<Emitted> {
        let mut out = Vec::new();
        while let Some(e) = self.next() {
            out.push(e);
        }
        out
    }
}

fn total_time(ops: &[Emitted]) -> f64 {
    ops.iter()
        .map(|o| match o {
            Emitted::Delay(d) => d.duration().as_secs_f64(),
            Emitted::Move(m, _) => m.total_time(),
            Emitted::Fill => 0.0,
        })
        .sum()
}

fn moves_of(ops: &[Emitted]) -> Vec<Move> {
    ops.iter()
        .filter_map(|o| match o {
            Emitted::Move(m, _) => Some(*m),
            _ => None,
        })
        .collect()
}

fn close(a: f64, b: f64, tolerance: f64) -> bool {
    (a - b).abs() <= tolerance
}

fn batch(limits: Limits, lines: &[&str]) -> Vec<Emitted> {
    let mut e = Engine::new(limits);
    for l in lines {
        e.process(l);
    }
    e.finalize();
    e.drain()
}

fn streamed(limits: Limits, lines: &[&str]) -> Vec<Emitted> {
    let mut e = Engine::new(limits);
    let mut out = Vec::new();
    for l in lines {
        e.process(l);
        out.extend(e.drain());
    }
    e.finalize();
    out.extend(e.drain());
    out
}

const PATH: [&str; 14] = [
    "G1 X10 F6000",
    "G1 X20 Y1",
    "G1 X30 Y0 E1 ; wall",
    "M117 hello",
    "G1 X30.5 Y0.2",
    "G1 X31 Y5 F1200",
    "G1 X31 Y5.01",
    "G1 X0 Y5 F9000",
    "G1 X0 Y0",
    "G1 X50 Y0",
    "G1 X100 Y0",
    "G1 X100 Y0.5",
    "G1 X150 Y0.5",
    "G1 X150 Y80",
];

#[test]
fn single_straight_move() {
    let ops = batch(limits(100.0, 1000.0, 5.0), &["G1 X100 F6000"]);
    assert_eq!(ops.len(), 1);
    let m = moves_of(&ops)[0];
    assert!(m.is_kinematic());
    assert_eq!(m.distance, 100.0);
    assert_eq!(m.start_v, 0.0);
    assert_eq!(m.end_v, 0.0);
    assert_eq!(m.cruise_v, 100.0);
    assert!(close(m.accel_distance(), 5.0, 1e-9));
    assert!(close(m.decel_distance(), 5.0, 1e-9));
    assert!(close(m.cruise_distance(), 90.0, 1e-9));
    assert!(close(m.accel_time(), 0.1, 1e-9));
    assert!(close(m.decel_time(), 0.1, 1e-9));
    assert!(close(m.total_time(), 0.1 + 0.9 + 0.1, 1e-9));
}

#[test]
fn right_angle_corner() {
    let l = limits(200.0, 1000.0, 5.0);
    assert!(close(l.junction_deviation, 25.0 * (2.0f64.sqrt() - 1.0) / 1000.0, 1e-15));
    let ops = batch(l, &["G1 X100", "G1 Y100"]);
    let moves = moves_of(&ops);
    assert_eq!(moves.len(), 2);
    let sin = (0.5f64).sqrt();
    let r = sin / (1.0 - sin);
    let corner = (r * l.junction_deviation * 1000.0).sqrt();
    assert!(close(corner, 5.0, 1e-9));
    assert!(close(moves[1].start_v, corner, 1e-9));
    assert!(close(moves[0].end_v, corner, 1e-9));
    assert_eq!(moves[0].start_v, 0.0);
    assert_eq!(moves[1].end_v, 0.0);
    assert!(close(moves[0].cruise_v, moves[1].cruise_v, 1e-9));
    assert!(close(moves[0].total_time(), moves[1].total_time(), 1e-9));
}

#[test]
fn dwell_segmentation() {
    let mut e = Engine::new(limits(100.0, 1000.0, 5.0));
    for l in ["G1 X10", "G4 P500", "G1 X20"] {
        assert_eq!(e.process(l), 1);
    }
    assert_eq!(e.planner.operations.len(), 3);
    assert!(e.planner.operations.sequence(0).is_some());
    assert!(e.planner.operations.sequence(1).is_none());
    assert!(e.planner.operations.sequence(2).is_some());
    e.finalize();
    let ops = e.drain();
    assert_eq!(ops.len(), 3);
    match (&ops[0], &ops[1], &ops[2]) {
        (Emitted::Move(a, _), Emitted::Delay(d), Emitted::Move(b, _)) => {
            assert_eq!(*d, Delay::Pause(Duration::from_millis(500)));
            assert_eq!(a.end_v, 0.0);
            assert_eq!(b.start_v, 0.0);
            assert!(a.cruise_v > 0.0 && b.cruise_v > 0.0);
        }
        other => panic!("{:?}", other),
    }
}

#[test]
fn firmware_retract_round_trip() {
    let mut l = limits(100.0, 1000.0, 5.0);
    l.retraction = Some(Retraction {
        retract_length: 1.0,
        unretract_extra_length: 0.5,
        retract_speed: 20.0,
        unretract_speed: 10.0,
        lift_z: 0.2,
    });
    let mut e = Engine::new(l);
    assert_eq!(e.process("G10"), 2);
    assert_eq!(e.planner.firmware_retraction, Some(FirmwareRetractionState::Retracted));
    assert_eq!(e.process("G10"), 0);
    assert_eq!(e.process("G11"), 2);
    assert_eq!(e.planner.firmware_retraction, Some(FirmwareRetractionState::Unretracted));
    assert_eq!(e.process("G11"), 0);
    e.finalize();
    let ops = e.drain();
    assert_eq!(ops.len(), 4);
    let labels: Vec<String> = ops
        .iter()
        .map(|o| match o {
            Emitted::Move(_, pm) => e.planner.move_kind_str(pm).unwrap().to_string(),
            _ => panic!(),
        })
        .collect();
    assert_eq!(
        labels,
        ["Firmware retract", "Firmware retract Z hop", "Firmware unretract", "Firmware unretract Z hop"]
    );
    let moves = moves_of(&ops);
    assert!(close(moves[0].end[3] - moves[0].start[3], -1.0, 1e-12));
    assert!(close(moves[1].end[2] - moves[1].start[2], 0.2, 1e-12));
    assert!(close(moves[2].end[3] - moves[2].start[3], 1.5, 1e-12));
    assert!(close(moves[3].end[2] - moves[3].start[2], -0.2, 1e-12));
    assert!(close(moves[0].cruise_v, 20.0, 1e-12));
    assert!(close(moves[2].cruise_v, 10.0, 1e-12));
}

#[test]
fn retraction_that_is_not_configured_holds_a_place() {
    let mut e = Engine::new(limits(100.0, 1000.0, 5.0));
    assert_eq!(e.process("G10"), 1);
    assert_eq!(e.process("G11"), 1);
    assert_eq!(e.planner.firmware_retraction, None);
    let ops = e.drain();
    assert!(matches!(ops[..], [Emitted::Fill, Emitted::Fill]));
}

#[test]
fn full_circle() {
    let mut l = limits(100.0, 1000.0, 5.0);
    l.mm_per_arc_segment = Some(1.0);
    let mut e = Engine::new(l);
    assert_eq!(e.process("G17"), 1);
    assert_eq!(e.process("G1 X10 Y0"), 1);
    let segments = e.process("G2 X10 Y0 I-10 J0");
    assert_eq!(segments, (2.0 * std::f64::consts::PI * 10.0).floor() as usize);
    assert_eq!(segments, 62);
    assert_eq!(&e.position[..2], &[10.0, 0.0]);
    e.finalize();
    let ops = e.drain();
    assert_eq!(ops.len(), 2 + segments);
    let moves = moves_of(&ops);
    let length: f64 = moves[1..].iter().map(|m| m.distance).sum();
    let circle = 2.0 * std::f64::consts::PI * 10.0;
    assert!((length - circle).abs() < 0.01 * circle);
    for m in &moves[1..] {
        assert!(close(m.end[0].hypot(m.end[1]), 10.0, 1e-9));
    }
    assert_eq!(&moves.last().unwrap().end[..3], &[10.0, 0.0, 0.0]);
}

#[test]
fn arc_that_cannot_be_drawn_makes_nothing() {
    let mut e = Engine::new(limits(100.0, 1000.0, 5.0));
    assert_eq!(e.process("G2 X10 Y0 I-10 J0 ; arc"), 0);
    let mut l = limits(100.0, 1000.0, 5.0);
    l.mm_per_arc_segment = Some(1.0);
    let mut e = Engine::new(l);
    assert_eq!(e.process("G3 X10 Y0"), 0);
    assert_eq!(e.planner.operations.len(), 0);
    assert!(e.drain().is_empty());
}

#[test]
fn arc_in_another_plane() {
    let mut l = limits(100.0, 1000.0, 5.0);
    l.mm_per_arc_segment = Some(0.5);
    let mut e = Engine::new(l);
    assert_eq!(e.process("G18"), 1);
    assert_eq!(e.planner.arc_state.get_plane(), Plane::XZ);
    let n = e.process("G3 X0 Z10 I0 K5");
    assert!(n > 1);
    e.finalize();
    for m in moves_of(&e.drain()) {
        assert_eq!(m.end[1], 0.0);
        assert!(close(m.end[0].hypot(m.end[2] - 5.0), 5.0, 1e-9));
    }
    assert_eq!(e.position, [0.0, 0.0, 10.0, 0.0]);
}

#[test]
fn streaming_a_single_move_gives_the_same_time() {
    let l = limits(100.0, 1000.0, 5.0);
    let a = total_time(&batch(l, &["G1 X100 F6000"]));
    let b = total_time(&streamed(l, &["G1 X100 F6000"]));
    assert!(close(a, b, 1e-12));
    assert!(close(a, 1.1, 1e-9));
}

#[test]
fn streaming_a_path_gives_the_same_time() {
    let l = limits(150.0, 2000.0, 5.0);
    let a = batch(l, &PATH);
    let b = streamed(l, &PATH);
    assert_eq!(a.len(), b.len());
    let (ta, tb) = (total_time(&a), total_time(&b));
    assert!(ta > 0.0);
    assert!((ta - tb).abs() <= 1e-9 * ta, "{} against {}", ta, tb);
}

#[test]
fn every_command_is_counted_once() {
    let mut l = limits(150.0, 2000.0, 5.0);
    l.mm_per_arc_segment = Some(1.0);
    l.retraction = Some(Retraction {
        retract_length: 1.0,
        unretract_extra_length: 0.0,
        retract_speed: 20.0,
        unretract_speed: 10.0,
        lift_z: 0.0,
    });
    let lines = [
        ";TYPE:Skirt",
        "G28",
        "G1 X10 F6000",
        "G10",
        "G1 X20 Y3",
        "G11",
        "G2 X30 Y3 I5 J0",
        "G4",
        "M204 S500",
        "G1 F3000",
        "G1 X30 Y3",
        "SET_VELOCITY_LIMIT VELOCITY=100",
        ";ESTIMATOR_ADD_TIME 2.5 Heating",
        ";ESTIMATOR_ADD_TIME soon",
        "G92 E0",
        "",
    ];
    let mut e = Engine::new(l);
    let mut counted = 0;
    let mut emitted = 0;
    for line in lines {
        counted += e.process(line);
        emitted += e.drain().len();
    }
    e.finalize();
    emitted += e.drain().len();
    assert_eq!(counted, emitted);
    assert_eq!(e.planner.operations.len(), 0);
}

#[test]
fn emitted_moves_are_safe_at_their_junctions() {
    let l = limits(150.0, 2000.0, 5.0);
    for ops in [batch(l, &PATH), streamed(l, &PATH)] {
        let moves = moves_of(&ops);
        assert_eq!(moves.len(), 13);
        for pair in moves.windows(2) {
            let (a, b) = (pair[0], pair[1]);
            assert!(b.start_v <= b.max_start_v2.sqrt() + 1e-9);
            assert!(b.start_v * b.start_v <= a.end_v * a.end_v + 2.0 * a.distance * a.acceleration + 1e-9);
            assert!(close(a.end_v, b.start_v, 1e-9));
        }
    }
}

#[test]
fn emitted_moves_close_their_trapezoid() {
    let l = limits(150.0, 2000.0, 5.0);
    for ops in [batch(l, &PATH), streamed(l, &PATH)] {
        for m in moves_of(&ops) {
            let sum = m.accel_distance() + m.cruise_distance() + m.decel_distance();
            assert!(close(sum, m.distance, 1e-9), "{:?}", m);
            assert!(m.start_v <= m.cruise_v && m.end_v <= m.cruise_v);
            assert!(m.cruise_v * m.cruise_v <= m.max_cruise_v2 + 1e-9);
        }
    }
}

#[test]
fn naming_the_position_twice_changes_nothing_more() {
    let mut e = Engine::new(limits(100.0, 1000.0, 5.0));
    e.process("G1 X5 Y6 Z7 E8");
    assert_eq!(e.process("G92 X1 E0"), 1);
    let once = e.position;
    assert_eq!(once, [1.0, 6.0, 7.0, 0.0]);
    assert_eq!(e.process("G92 X1 E0"), 1);
    assert_eq!(e.position, once);
}

#[test]
fn extruder_mode_switched_twice_is_as_before() {
    let mut e = Engine::new(limits(100.0, 1000.0, 5.0));
    let before = e.planner.toolhead_state.position_modes;
    assert_eq!(e.process("M82"), 1);
    assert_ne!(e.planner.toolhead_state.position_modes, before);
    assert_eq!(e.process("M83"), 1);
    assert_eq!(e.planner.toolhead_state.position_modes, before);
    e.process("G1 E2");
    e.process("G1 E2");
    assert_eq!(e.position[3], 4.0);
    e.process("M82");
    e.process("G1 E2");
    assert_eq!(e.position[3], 2.0);
}

#[test]
fn operations_are_paired_with_their_commands() {
    let mut l = limits(150.0, 2000.0, 5.0);
    l.retraction = Some(Retraction {
        retract_length: 1.0,
        unretract_extra_length: 0.0,
        retract_speed: 20.0,
        unretract_speed: 10.0,
        lift_z: 0.4,
    });
    let lines = ["G1 X10", "G10", "G1 X20", "G4 P10", "M117 hi", "G11", "G1 X0"];
    let mut e = Engine::new(l);
    let mut buffer = CommandBuffer::new();
    let mut paired = Vec::new();
    for (i, line) in lines.iter().enumerate() {
        let n = e.process(line);
        buffer.push(n, *line);
        if i % 3 == 0 {
            for _ in e.drain() {
                paired.push(*buffer.front().unwrap());
                buffer.advance();
            }
        }
    }
    e.finalize();
    for _ in e.drain() {
        paired.push(*buffer.front().unwrap());
        buffer.advance();
    }
    assert_eq!(buffer.len(), 0);
    assert_eq!(
        paired,
        ["G1 X10", "G10", "G10", "G1 X20", "G4 P10", "M117 hi", "G11", "G11", "G1 X0"]
    );
}
