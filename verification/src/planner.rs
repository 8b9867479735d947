//! The planner: what each command makes of its state and of the stream of
//! operations.
use vstd::prelude::*;
use std::time::Duration;
use crate::arcs::{with_moves, ArcState, Plane};
use crate::directive::{directive_of, Directive, DirectiveView};
use crate::firmware_retraction::{with_labelled, with_pair, FirmwareRetractionState};
use crate::gcode::{GCodeCommand, GCodeCommandView, GCodeOperation, GCodeOperationView};
use crate::kind_tracker::{comment_label, distinct, kind_after_comment, kind_in, labels_after_comment, labels_with, Kind, KindTracker};
use crate::lookahead::{Junction, Planned};
use crate::operations::{element_of, emitted, lemma_emitted_grows, after_next, flush_plans, flushed, front_reports_fit, lemma_pending_grows, lemma_stream_wf, millis, next_in, next_plan, pending, reports_fit, rows, stream_wf, with_delay, with_fill, with_move};

pub use crate::operations::{Delay, MoveSequence, MoveSequenceOperation, OperationSequence, OperationSequenceOperation, OperationView, PlanningMove, PlanningOperation};

verus! {

/// How a coordinate of a command is read: as the target itself, or as the
/// distance to it.
#[derive(Debug, Clone, Copy, PartialEq, Eq, Structural)]
pub enum PositionMode {
    Absolute,
    Relative,
}

impl Default for PositionMode {
    fn default() -> (r: Self)
        ensures
            r == PositionMode::Absolute,
    {
        PositionMode::Absolute
    }
}

/// How the target of a move along one axis comes from the command.
#[derive(Debug, Clone, Copy, PartialEq, Eq, Structural)]
pub enum Target {
    /// The command gives no coordinate: the axis stays where it is.
    Keep,
    /// The coordinate is the target.
    Replace,
    /// The coordinate is added to the position.
    Add,
}

/// How the target along one axis comes from the command.
pub open spec fn spec_target_of(given: bool, mode: PositionMode, relative: bool) -> Target {
    if !given {
        Target::Keep
    } else if relative || mode == PositionMode::Relative {
        Target::Add
    } else {
        Target::Replace
    }
}

/// How the targets along the four axes come from the command.
pub open spec fn targets(modes: Seq<PositionMode>, axes: Seq<bool>, relative: bool) -> Seq<Target> {
    Seq::new(4, |i: int| spec_target_of(axes[i], modes[i], relative))
}

fn target_of(given: bool, mode: PositionMode, relative: bool) -> (r: Target)
    ensures
        r == spec_target_of(given, mode, relative),
{
    if !given {
        Target::Keep
    } else if relative || mode == PositionMode::Relative {
        Target::Add
    } else {
        Target::Replace
    }
}

/// The part of the tool head's state that decides how commands are read.
#[derive(Debug)]
pub struct ToolheadState {
    /// How a coordinate is read, for each of the axes X, Y, Z and E.
    pub position_modes: [PositionMode; 4],
}

impl ToolheadState {
    /// The state at the start: targets in space are absolute, those of the
    /// extruder relative.
    pub fn new() -> (r: ToolheadState)
        ensures
            r.position_modes@ == initial_modes(),
    {
        let r = ToolheadState {
            position_modes: [
                PositionMode::Absolute,
                PositionMode::Absolute,
                PositionMode::Absolute,
                PositionMode::Relative,
            ],
        };
        assert(r.position_modes@ =~= initial_modes());
        r
    }

    /// How the target of a move comes from its coordinates: for each axis,
    /// whether the command gives a coordinate, and how that is read. In a
    /// relative move every coordinate is a distance, whatever the modes say.
    pub fn perform_move(&self, axes: [bool; 4], relative: bool) -> (r: [Target; 4])
        ensures
            r@ == targets(self.position_modes@, axes@, relative),
    {
        let r = [
            target_of(axes[0], self.position_modes[0], relative),
            target_of(axes[1], self.position_modes[1], relative),
            target_of(axes[2], self.position_modes[2], relative),
            target_of(axes[3], self.position_modes[3], relative),
        ];
        assert(r@ =~= targets(self.position_modes@, axes@, relative));
        r
    }

    /// Sets how coordinates of the extruder are read.
    pub fn set_extruder_mode(&mut self, mode: PositionMode)
        ensures
            final(self).position_modes@ == old(self).position_modes@.update(3, mode),
    {
        let m = &self.position_modes;
        let next = [m[0], m[1], m[2], mode];
        assert(next@ =~= self.position_modes@.update(3, mode));
        self.position_modes = next;
    }
}

/// The modes in which coordinates are read at the start.
pub open spec fn initial_modes() -> Seq<PositionMode> {
    seq![
        PositionMode::Absolute,
        PositionMode::Absolute,
        PositionMode::Absolute,
        PositionMode::Relative,
    ]
}

/// What the arithmetic on a command gave. The planner takes from it what
/// the command calls for and passes over the rest.
#[derive(Debug)]
pub enum Outcome {
    /// No arithmetic was called for, or it gave nothing.
    Nothing,
    /// The move of a linear move that names an axis.
    Move(PlanningMove),
    /// The moves of a retraction or of its reverse: the one along the
    /// extruder axis and the hop, each where the settings call for it.
    Retraction(Option<PlanningMove>, Option<PlanningMove>),
    /// The segments of an arc; none where the arc cannot be drawn.
    Arc(Vec<PlanningMove>),
    /// The length of a dwell or of an added wait, where the command gives it
    /// as a number.
    Delay(Duration),
}

/// An outcome with the segments of an arc as a sequence.
pub enum OutcomeView {
    Nothing,
    Move(PlanningMove),
    Retraction(Option<PlanningMove>, Option<PlanningMove>),
    Arc(Seq<PlanningMove>),
    Delay(Duration),
}

impl View for Outcome {
    type V = OutcomeView;

    open spec fn view(&self) -> OutcomeView {
        match *self {
            Outcome::Nothing => OutcomeView::Nothing,
            Outcome::Move(m) => OutcomeView::Move(m),
            Outcome::Retraction(l, h) => OutcomeView::Retraction(l, h),
            Outcome::Arc(v) => OutcomeView::Arc(v@),
            Outcome::Delay(d) => OutcomeView::Delay(d),
        }
    }
}

impl OutcomeView {
    /// The move along the extruder axis of a retraction.
    pub open spec fn length(self) -> Option<PlanningMove> {
        match self {
            OutcomeView::Retraction(l, _) => l,
            _ => None,
        }
    }

    /// The hop of a retraction.
    pub open spec fn hop(self) -> Option<PlanningMove> {
        match self {
            OutcomeView::Retraction(_, h) => h,
            _ => None,
        }
    }

    /// The segments of an arc.
    pub open spec fn segments(self) -> Seq<PlanningMove> {
        match self {
            OutcomeView::Arc(v) => v,
            _ => Seq::empty(),
        }
    }
}

/// The state of a planner.
pub struct PlannerView {
    /// The operations that have not left the planner.
    pub stream: Seq<OperationView>,
    /// The labels in use.
    pub labels: Seq<Seq<char>>,
    /// The label of commands that carry none.
    pub current: Option<Kind>,
    /// How a coordinate is read, for each of the axes X, Y, Z and E.
    pub modes: Seq<PositionMode>,
    /// Whether the filament is drawn back; `None` where the firmware does
    /// not retract.
    pub retraction: Option<FirmwareRetractionState>,
    /// The plane of arcs.
    pub plane: Plane,
}

/// Whether a linear move names an axis to move along.
pub open spec fn names_axis(op: GCodeOperationView) -> bool {
    match op {
        GCodeOperationView::Move { x, y, z, e, f } => x is Some || y is Some || z is Some || e
            is Some,
        _ => false,
    }
}

impl PlannerView {
    pub open spec fn wf(self) -> bool {
        &&& stream_wf(self.stream)
        &&& distinct(self.labels)
        &&& self.modes.len() == 4
    }

    /// The state with one more fill in its stream.
    pub open spec fn filled(self) -> PlannerView {
        PlannerView { stream: with_fill(self.stream), ..self }
    }

    /// The state after a wait of indeterminate length.
    pub open spec fn indeterminate(self) -> PlannerView {
        let labels = labels_with(self.labels, "Indeterminate time"@);
        PlannerView {
            stream: with_delay(
                self.stream,
                Delay::Indeterminate(millis(100), Some(kind_in(labels, "Indeterminate time"@))),
            ),
            labels,
            ..self
        }
    }

    /// The state after a dwell: of the length given, or of 250 ms.
    pub open spec fn dwelled(self, outcome: OutcomeView) -> PlannerView {
        let d = match outcome {
            OutcomeView::Delay(d) => d,
            _ => millis(250),
        };
        PlannerView { stream: with_delay(self.stream, Delay::Pause(d)), ..self }
    }

    /// The state after a linear move: the move under the label of the
    /// command where the command names an axis, else a fill.
    pub open spec fn moved(self, cmd: GCodeCommandView, outcome: OutcomeView) -> PlannerView {
        let kind = kind_after_comment(self.labels, self.current, cmd.comment);
        PlannerView {
            stream: match outcome {
                OutcomeView::Move(m) if names_axis(cmd.op) => with_move(
                    self.stream,
                    m.tagged(kind),
                ),
                _ => with_fill(self.stream),
            },
            labels: labels_after_comment(self.labels, cmd.comment),
            ..self
        }
    }

    /// The state after an arc: its segments under the label of the command.
    pub open spec fn arced(self, cmd: GCodeCommandView, outcome: OutcomeView) -> PlannerView {
        let kind = kind_after_comment(self.labels, self.current, cmd.comment);
        PlannerView {
            stream: with_moves(self.stream, outcome.segments(), kind),
            labels: labels_after_comment(self.labels, cmd.comment),
            ..self
        }
    }

    /// The state and the count of moves after a retraction (`back`) or its
    /// reverse. In the wrong state nothing happens.
    pub open spec fn retracted(self, back: bool, outcome: OutcomeView) -> (PlannerView, nat) {
        match self.retraction {
            None => (self.filled(), 1),
            Some(state) => {
                let target = if back {
                    FirmwareRetractionState::Retracted
                } else {
                    FirmwareRetractionState::Unretracted
                };
                if state == target {
                    (self, 0)
                } else {
                    let made = if back {
                        with_pair(
                            self.labels,
                            self.stream,
                            outcome.length(),
                            "Firmware retract"@,
                            outcome.hop(),
                            "Firmware retract Z hop"@,
                        )
                    } else {
                        with_pair(
                            self.labels,
                            self.stream,
                            outcome.length(),
                            "Firmware unretract"@,
                            outcome.hop(),
                            "Firmware unretract Z hop"@,
                        )
                    };
                    (
                        PlannerView {
                            labels: made.0,
                            stream: made.1,
                            retraction: Some(target),
                            ..self
                        },
                        made.2,
                    )
                }
            },
        }
    }

    /// The state after a comment that sets the label.
    pub open spec fn labelled(self, label: Seq<char>) -> PlannerView {
        let labels = labels_with(self.labels, label);
        PlannerView {
            labels,
            current: Some(kind_in(labels, label)),
            stream: with_fill(self.stream),
            ..self
        }
    }

    /// The state after a comment that adds a wait: the wait under its label
    /// where the seconds are a number, else a fill.
    pub open spec fn waited(self, label: Option<Seq<char>>, outcome: OutcomeView) -> PlannerView {
        match outcome {
            OutcomeView::Delay(d) => match label {
                Some(l) => {
                    let labels = labels_with(self.labels, l);
                    PlannerView {
                        labels,
                        stream: with_delay(
                            self.stream,
                            Delay::Indeterminate(d, Some(kind_in(labels, l))),
                        ),
                        ..self
                    }
                },
                None => PlannerView {
                    stream: with_delay(self.stream, Delay::Indeterminate(d, None)),
                    ..self
                },
            },
            _ => self.filled(),
        }
    }

    /// The state after the command `cmd` whose arithmetic gave `outcome`,
    /// and the count of operations that the command added to the stream.
    pub open spec fn step(self, cmd: GCodeCommandView, outcome: OutcomeView) -> (PlannerView, nat) {
        match directive_of(cmd) {
            DirectiveView::Dwell => (self.dwelled(outcome), 1),
            DirectiveView::Indeterminate => (self.indeterminate(), 1),
            DirectiveView::LinearMove => (self.moved(cmd, outcome), 1),
            DirectiveView::Retract => self.retracted(true, outcome),
            DirectiveView::Unretract => self.retracted(false, outcome),
            DirectiveView::Arc(_) => (self.arced(cmd, outcome), outcome.segments().len()),
            DirectiveView::SelectPlane(p) => (PlannerView { plane: p, ..self }.filled(), 1),
            DirectiveView::ExtruderMode(m) => (
                PlannerView { modes: self.modes.update(3, m), ..self }.filled(),
                1,
            ),
            DirectiveView::Label(l) => (self.labelled(l), 1),
            DirectiveView::AddTime { seconds, label } => (self.waited(label, outcome), 1),
            _ => (self.filled(), 1),
        }
    }
}

/// Turns commands into the stream of planned operations. The arithmetic on
/// positions and velocities is done by the caller, who hands in what it gave
/// with each command.
#[derive(Debug)]
pub struct Planner {
    pub operations: OperationSequence,
    pub toolhead_state: ToolheadState,
    pub kind_tracker: KindTracker,
    pub firmware_retraction: Option<FirmwareRetractionState>,
    pub arc_state: ArcState,
}

impl View for Planner {
    type V = PlannerView;

    open spec fn view(&self) -> PlannerView {
        PlannerView {
            stream: self.operations@,
            labels: self.kind_tracker.labels(),
            current: self.kind_tracker.current(),
            modes: self.toolhead_state.position_modes@,
            retraction: self.firmware_retraction,
            plane: self.arc_state.plane(),
        }
    }
}

impl Planner {
    pub open spec fn wf(&self) -> bool {
        self@.wf()
    }

    /// A planner at the start. `firmware_retraction` says whether the
    /// firmware retracts.
    pub fn from_limits(firmware_retraction: bool) -> (r: Planner)
        ensures
            r.wf(),
            r@ == (PlannerView {
                stream: Seq::empty(),
                labels: Seq::empty(),
                current: None,
                modes: initial_modes(),
                retraction: if firmware_retraction {
                    Some(FirmwareRetractionState::Unretracted)
                } else {
                    None
                },
                plane: Plane::XY,
            }),
    {
        Planner {
            operations: OperationSequence::new(),
            toolhead_state: ToolheadState::new(),
            kind_tracker: KindTracker::new(),
            firmware_retraction: if firmware_retraction {
                Some(FirmwareRetractionState::Unretracted)
            } else {
                None
            },
            arc_state: ArcState::default(),
        }
    }

    fn retraction(&mut self, back: bool, outcome: &Outcome) -> (n: usize)
        requires
            old(self).wf(),
        ensures
            final(self).wf(),
            (final(self)@, n as nat) == old(self)@.retracted(back, outcome@),
    {
        let (length, hop) = match outcome {
            Outcome::Retraction(l, h) => (*l, *h),
            _ => (None, None),
        };
        match self.firmware_retraction {
            Some(state) => {
                let mut fr = state;
                let ghost labels = self.kind_tracker.labels();
                proof {
                    if back {
                        lemma_pair(
                            labels,
                            self.operations@,
                            length,
                            "Firmware retract"@,
                            hop,
                            "Firmware retract Z hop"@,
                        );
                    } else {
                        lemma_pair(
                            labels,
                            self.operations@,
                            length,
                            "Firmware unretract"@,
                            hop,
                            "Firmware unretract Z hop"@,
                        );
                    }
                }
                let n = if back {
                    fr.retract(&mut self.kind_tracker, &mut self.operations, length, hop)
                } else {
                    fr.unretract(&mut self.kind_tracker, &mut self.operations, length, hop)
                };
                self.firmware_retraction = Some(fr);
                n
            },
            None => {
                self.operations.add_fill();
                1
            },
        }
    }

    /// Takes a command and what the arithmetic on it gave, and appends to
    /// the stream what the command stands for. Returns the count of
    /// operations that the command added.
    pub fn process_cmd(&mut self, cmd: &GCodeCommand, outcome: &Outcome) -> (n: usize)
        requires
            old(self).wf(),
        ensures
            final(self).wf(),
            (final(self)@, n as nat) == old(self)@.step(cmd@, outcome@),
            pending(final(self)@.stream) == pending(old(self)@.stream) + n,
    {
        proof {
            lemma_step(self@, cmd@, outcome@);
        }
        match Directive::of(cmd) {
            Directive::Dwell => {
                let d = match outcome {
                    Outcome::Delay(d) => *d,
                    _ => Duration::from_millis(250),
                };
                self.operations.add_delay(Delay::Pause(d));
                1
            },
            Directive::Indeterminate => {
                let k = self.kind_tracker.get_kind("Indeterminate time");
                self.operations.add_delay(
                    Delay::Indeterminate(Duration::from_millis(100), Some(k)),
                );
                1
            },
            Directive::LinearMove => {
                let move_kind = self.kind_tracker.kind_from_comment(&cmd.comment);
                let names_axis = match &cmd.op {
                    GCodeOperation::Move { x, y, z, e, f } => x.is_some() || y.is_some()
                        || z.is_some() || e.is_some(),
                    _ => false,
                };
                match outcome {
                    Outcome::Move(m) => {
                        if names_axis {
                            let mut pm = *m;
                            pm.kind = move_kind;
                            self.operations.add_move(pm);
                        } else {
                            self.operations.add_fill();
                        }
                    },
                    _ => {
                        self.operations.add_fill();
                    },
                }
                1
            },
            Directive::Retract => self.retraction(true, outcome),
            Directive::Unretract => self.retraction(false, outcome),
            Directive::Arc(_) => {
                let move_kind = self.kind_tracker.kind_from_comment(&cmd.comment);
                match outcome {
                    Outcome::Arc(segments) => self.arc_state.generate_arc(
                        &mut self.operations,
                        move_kind,
                        segments,
                    ),
                    _ => 0,
                }
            },
            Directive::SelectPlane(p) => {
                self.arc_state.set_plane(p);
                self.operations.add_fill();
                1
            },
            Directive::ExtruderMode(m) => {
                self.toolhead_state.set_extruder_mode(m);
                self.operations.add_fill();
                1
            },
            Directive::Label(l) => {
                let kind = self.kind_tracker.get_kind(l.as_str());
                self.kind_tracker.set_current(Some(kind));
                self.operations.add_fill();
                1
            },
            Directive::AddTime { seconds, label } => {
                match outcome {
                    Outcome::Delay(d) => {
                        let kind = match label {
                            Some(l) => Some(self.kind_tracker.get_kind(l.as_str())),
                            None => None,
                        };
                        self.operations.add_delay(Delay::Indeterminate(*d, kind));
                    },
                    _ => {
                        self.operations.add_fill();
                    },
                }
                1
            },
            _ => {
                self.operations.add_fill();
                1
            },
        }
    }

    /// Plans every run of the stream in full. `facts[i]` holds the reports
    /// of the arithmetic on the run at position `i` of the stream. Returns,
    /// for each element of the stream, the moves whose velocities are to be
    /// set.
    pub fn finalize(&mut self, facts: &Vec<Vec<Junction>>) -> (plans: Vec<Vec<Planned>>)
        requires
            old(self).wf(),
            reports_fit(old(self)@.stream, rows(facts@)),
        ensures
            final(self).wf(),
            final(self)@ == (PlannerView {
                stream: flushed(old(self)@.stream, rows(facts@)),
                ..old(self)@
            }),
            rows(plans@) == flush_plans(old(self)@.stream, rows(facts@)),
    {
        self.operations.flush(facts)
    }

    /// Takes the next operation out of the stream. `facts` holds the reports
    /// of the arithmetic on the run with which the stream begins; `plan`
    /// receives the moves of that run whose velocities are to be set.
    pub fn next_operation(&mut self, facts: &Vec<Junction>, plan: &mut Vec<Planned>) -> (r: Option<
        PlanningOperation,
    >)
        requires
            old(self).wf(),
            front_reports_fit(old(self)@.stream, facts@),
        ensures
            final(self).wf(),
            r == next_in(old(self)@.stream, facts@),
            final(self)@ == (PlannerView {
                stream: after_next(old(self)@.stream, facts@),
                ..old(self)@
            }),
            final(plan)@ == old(plan)@ + next_plan(old(self)@.stream, facts@),
    {
        self.operations.next_operation(facts, plan)
    }

    /// The label of a move that this planner has labelled.
    pub fn move_kind_str(&self, m: &PlanningMove) -> (r: Option<&str>)
        requires
            m.kind is Some ==> self.kind_tracker.knows(m.kind.unwrap()),
        ensures
            match m.kind {
                Some(k) => r is Some && r.unwrap()@ == self@.labels[k.index() as int],
                None => r is None,
            },
    {
        self.kind_str(&m.kind)
    }

    /// The label behind a kind that this planner has handed out.
    pub fn kind_str(&self, kind: &Option<Kind>) -> (r: Option<&str>)
        requires
            *kind is Some ==> self.kind_tracker.knows(kind.unwrap()),
        ensures
            match *kind {
                Some(k) => r is Some && r.unwrap()@ == self@.labels[k.index() as int],
                None => r is None,
            },
    {
        match kind {
            Some(k) => Some(self.kind_tracker.resolve_kind(*k)),
            None => None,
        }
    }
}

/// Adding the moves of a retraction keeps the labels distinct and the
/// stream well formed, and adds as many operations as it counts.
pub proof fn lemma_pair(
    labels: Seq<Seq<char>>,
    ops: Seq<OperationView>,
    length: Option<PlanningMove>,
    length_label: Seq<char>,
    hop: Option<PlanningMove>,
    hop_label: Seq<char>,
)
    requires
        distinct(labels),
        stream_wf(ops),
    ensures
        ({
            let made = with_pair(labels, ops, length, length_label, hop, hop_label);
            &&& distinct(made.0)
            &&& stream_wf(made.1)
            &&& pending(made.1) == pending(ops) + made.2
            &&& made.2 <= 2
        }),
{
    let first = with_labelled(labels, ops, 0, length, length_label);
    lemma_labelled(labels, ops, 0, length, length_label);
    lemma_labelled(first.0, first.1, first.2, hop, hop_label);
}

proof fn lemma_labelled(
    labels: Seq<Seq<char>>,
    ops: Seq<OperationView>,
    n: nat,
    m: Option<PlanningMove>,
    label: Seq<char>,
)
    requires
        distinct(labels),
        stream_wf(ops),
    ensures
        ({
            let made = with_labelled(labels, ops, n, m, label);
            &&& distinct(made.0)
            &&& stream_wf(made.1)
            &&& pending(made.1) + n == pending(ops) + made.2
            &&& n <= made.2 <= n + 1
        }),
{
    if m is Some {
        lemma_distinct_with(labels, label);
        let after = labels_with(labels, label);
        let pm = m.unwrap().tagged(Some(kind_in(after, label)));
        lemma_pending_grows(ops, Delay::Pause(millis(0)), pm);
        lemma_stream_wf(ops, Delay::Pause(millis(0)), pm);
    }
}

/// Looking a label up keeps the labels distinct.
pub proof fn lemma_distinct_with(labels: Seq<Seq<char>>, label: Seq<char>)
    requires
        distinct(labels),
    ensures
        distinct(labels_with(labels, label)),
{
    let after = labels_with(labels, label);
    if !labels.contains(label) {
        assert forall|i: int, j: int| 0 <= i < j < after.len() implies after[i] != after[j] by {
            if j == labels.len() {
                assert(labels[i] != label);
            }
        }
    }
}

/// The segments of an arc leave the stream well formed and add one
/// operation each.
pub proof fn lemma_with_moves(ops: Seq<OperationView>, segments: Seq<PlanningMove>, kind: Option<Kind>)
    requires
        stream_wf(ops),
    ensures
        stream_wf(with_moves(ops, segments, kind)),
        pending(with_moves(ops, segments, kind)) == pending(ops) + segments.len(),
    decreases segments.len(),
{
    if segments.len() > 0 {
        lemma_with_moves(ops, segments.drop_last(), kind);
        let before = with_moves(ops, segments.drop_last(), kind);
        lemma_pending_grows(before, Delay::Pause(millis(0)), segments.last().tagged(kind));
        lemma_stream_wf(before, Delay::Pause(millis(0)), segments.last().tagged(kind));
    }
}

/// Every command adds to the stream as many operations as it counts, and
/// leaves the planner well formed.
pub proof fn lemma_step(pre: PlannerView, cmd: GCodeCommandView, outcome: OutcomeView)
    requires
        pre.wf(),
    ensures
        pre.step(cmd, outcome).0.wf(),
        pending(pre.step(cmd, outcome).0.stream) == pending(pre.stream) + pre.step(cmd, outcome).1,
{
    let any_delay = Delay::Pause(millis(0));
    let any_move = PlanningMove { id: 0, kind: None, zero_distance: false };
    lemma_pending_grows(pre.stream, any_delay, any_move);
    lemma_stream_wf(pre.stream, any_delay, any_move);
    match directive_of(cmd) {
        DirectiveView::Dwell => {
            let d = match outcome {
                OutcomeView::Delay(d) => d,
                _ => millis(250),
            };
            lemma_pending_grows(pre.stream, Delay::Pause(d), any_move);
            lemma_stream_wf(pre.stream, Delay::Pause(d), any_move);
        },
        DirectiveView::Indeterminate => {
            lemma_distinct_with(pre.labels, "Indeterminate time"@);
            let d = pre.indeterminate().stream.last()->Delay_0;
            lemma_pending_grows(pre.stream, d, any_move);
            lemma_stream_wf(pre.stream, d, any_move);
        },
        DirectiveView::LinearMove => {
            if cmd.comment is Some {
                lemma_distinct_with(pre.labels, comment_label(cmd.comment.unwrap()));
            }
            if let OutcomeView::Move(m) = outcome {
                let pm = m.tagged(kind_after_comment(pre.labels, pre.current, cmd.comment));
                lemma_pending_grows(pre.stream, any_delay, pm);
                lemma_stream_wf(pre.stream, any_delay, pm);
            }
        },
        DirectiveView::Retract => {
            lemma_pair(
                pre.labels,
                pre.stream,
                outcome.length(),
                "Firmware retract"@,
                outcome.hop(),
                "Firmware retract Z hop"@,
            );
        },
        DirectiveView::Unretract => {
            lemma_pair(
                pre.labels,
                pre.stream,
                outcome.length(),
                "Firmware unretract"@,
                outcome.hop(),
                "Firmware unretract Z hop"@,
            );
        },
        DirectiveView::Arc(_) => {
            if cmd.comment is Some {
                lemma_distinct_with(pre.labels, comment_label(cmd.comment.unwrap()));
            }
            lemma_with_moves(
                pre.stream,
                outcome.segments(),
                kind_after_comment(pre.labels, pre.current, cmd.comment),
            );
        },
        DirectiveView::Label(l) => {
            lemma_distinct_with(pre.labels, l);
        },
        DirectiveView::AddTime { seconds, label } => {
            if let OutcomeView::Delay(d) = outcome {
                if label is Some {
                    lemma_distinct_with(pre.labels, label.unwrap());
                }
                let made = pre.waited(label, outcome).stream.last()->Delay_0;
                lemma_pending_grows(pre.stream, made, any_move);
                lemma_stream_wf(pre.stream, made, any_move);
            }
        },
        _ => {},
    }
}

/// The state after the commands `cmds`, given in order, and the sum of the
/// counts that they returned. `outcomes[i]` is what the arithmetic gave on
/// `cmds[i]`.
pub open spec fn run(pre: PlannerView, cmds: Seq<GCodeCommandView>, outcomes: Seq<OutcomeView>) -> (
    PlannerView,
    nat,
)
    decreases cmds.len(),
{
    if cmds.len() == 0 || outcomes.len() == 0 {
        (pre, 0)
    } else {
        let before = run(pre, cmds.drop_last(), outcomes.drop_last());
        let last = before.0.step(cmds.last(), outcomes.last());
        (last.0, before.1 + last.1)
    }
}

/// The counts that the commands return add up to the count of operations by
/// which the stream has grown: whatever is given to the planner, no
/// operation is made that is not counted and none is counted that is not
/// made.
pub proof fn lemma_accounting(
    pre: PlannerView,
    cmds: Seq<GCodeCommandView>,
    outcomes: Seq<OutcomeView>,
)
    requires
        pre.wf(),
    ensures
        run(pre, cmds, outcomes).0.wf(),
        pending(run(pre, cmds, outcomes).0.stream) == pending(pre.stream) + run(
            pre,
            cmds,
            outcomes,
        ).1,
    decreases cmds.len(),
{
    if cmds.len() > 0 && outcomes.len() > 0 {
        lemma_accounting(pre, cmds.drop_last(), outcomes.drop_last());
        let before = run(pre, cmds.drop_last(), outcomes.drop_last());
        lemma_step(before.0, cmds.last(), outcomes.last());
    }
}

/// A command that is neither an arc nor a retraction or its reverse makes
/// exactly one operation.
pub proof fn lemma_one_operation(pre: PlannerView, cmd: GCodeCommandView, outcome: OutcomeView)
    requires
        !(directive_of(cmd) is Arc),
        !(directive_of(cmd) is Retract),
        !(directive_of(cmd) is Unretract),
    ensures
        pre.step(cmd, outcome).1 == 1,
{
}

/// Where the mode of the extruder is switched and then switched back, the
/// modes are what they were.
pub proof fn lemma_extruder_mode_returns(
    pre: PlannerView,
    away: GCodeCommandView,
    back: GCodeCommandView,
    first: OutcomeView,
    second: OutcomeView,
)
    requires
        pre.wf(),
        directive_of(away) is ExtruderMode,
        directive_of(back) == DirectiveView::ExtruderMode(pre.modes[3]),
    ensures
        pre.step(away, first).0.step(back, second).0.modes == pre.modes,
{
    let m = directive_of(away)->ExtruderMode_0;
    assert(pre.modes.update(3, m).update(3, pre.modes[3]) =~= pre.modes);
}

/// A command that names the position anew changes nothing of the planner
/// but the stream, in which it holds a place.
pub proof fn lemma_set_origin(pre: PlannerView, cmd: GCodeCommandView, outcome: OutcomeView)
    requires
        directive_of(cmd) is SetOrigin,
    ensures
        pre.step(cmd, outcome) == (pre.filled(), 1nat),
{
}


/// Whether the operations `after` are the operations `before` and then `n`
/// more.
pub open spec fn extends(
    before: Seq<PlanningOperation>,
    after: Seq<PlanningOperation>,
    n: nat,
) -> bool {
    after.len() == before.len() + n && after.take(before.len() as int) == before
}

proof fn lemma_extends_moves(ops: Seq<OperationView>, segments: Seq<PlanningMove>, kind: Option<Kind>)
    ensures
        extends(emitted(ops), emitted(with_moves(ops, segments, kind)), segments.len()),
    decreases segments.len(),
{
    if segments.len() > 0 {
        lemma_extends_moves(ops, segments.drop_last(), kind);
        let before = with_moves(ops, segments.drop_last(), kind);
        lemma_emitted_grows(before, Delay::Pause(millis(0)), segments.last().tagged(kind));
        assert(emitted(with_moves(ops, segments, kind)).take(emitted(ops).len() as int) =~= emitted(
            before,
        ).take(emitted(ops).len() as int));
    } else {
        assert(emitted(ops).take(emitted(ops).len() as int) =~= emitted(ops));
    }
}

proof fn lemma_extends_labelled(
    labels: Seq<Seq<char>>,
    ops: Seq<OperationView>,
    n: nat,
    m: Option<PlanningMove>,
    label: Seq<char>,
)
    ensures
        ({
            let made = with_labelled(labels, ops, n, m, label);
            extends(emitted(ops), emitted(made.1), (made.2 - n) as nat) && made.2 >= n
        }),
{
    if m is Some {
        let after = labels_with(labels, label);
        lemma_emitted_grows(
            ops,
            Delay::Pause(millis(0)),
            m.unwrap().tagged(Some(kind_in(after, label))),
        );
        assert(emitted(ops).push(
            element_of(m.unwrap().tagged(Some(kind_in(after, label)))).emitted(),
        ).take(emitted(ops).len() as int) =~= emitted(ops));
    } else {
        assert(emitted(ops).take(emitted(ops).len() as int) =~= emitted(ops));
    }
}

/// What a command adds to the stream leaves the planner after all that was
/// in the stream before: the operations that the planner gives out after
/// the command are those it gave out before, and then as many more as the
/// command counts.
pub proof fn lemma_step_extends(pre: PlannerView, cmd: GCodeCommandView, outcome: OutcomeView)
    requires
        pre.wf(),
    ensures
        extends(
            emitted(pre.stream),
            emitted(pre.step(cmd, outcome).0.stream),
            pre.step(cmd, outcome).1,
        ),
{
    let before = emitted(pre.stream);
    let post = pre.step(cmd, outcome).0;
    let any_delay = Delay::Pause(millis(0));
    let any_move = PlanningMove { id: 0, kind: None, zero_distance: false };
    lemma_emitted_grows(pre.stream, any_delay, any_move);
    assert(before.take(before.len() as int) =~= before);
    assert(forall|x: PlanningOperation| #[trigger] before.push(x).take(before.len() as int) =~= before);
    match directive_of(cmd) {
        DirectiveView::Dwell => {
            lemma_emitted_grows(pre.stream, post.stream.last()->Delay_0, any_move);
        },
        DirectiveView::Indeterminate => {
            lemma_emitted_grows(pre.stream, post.stream.last()->Delay_0, any_move);
        },
        DirectiveView::LinearMove => {
            if let OutcomeView::Move(m) = outcome {
                let pm = m.tagged(kind_after_comment(pre.labels, pre.current, cmd.comment));
                lemma_emitted_grows(pre.stream, any_delay, pm);
            }
        },
        DirectiveView::Retract => {
            lemma_extends_pair(
                pre.labels,
                pre.stream,
                outcome.length(),
                "Firmware retract"@,
                outcome.hop(),
                "Firmware retract Z hop"@,
            );
        },
        DirectiveView::Unretract => {
            lemma_extends_pair(
                pre.labels,
                pre.stream,
                outcome.length(),
                "Firmware unretract"@,
                outcome.hop(),
                "Firmware unretract Z hop"@,
            );
        },
        DirectiveView::Arc(_) => {
            lemma_extends_moves(
                pre.stream,
                outcome.segments(),
                kind_after_comment(pre.labels, pre.current, cmd.comment),
            );
        },
        DirectiveView::AddTime { seconds, label } => {
            if let OutcomeView::Delay(d) = outcome {
                lemma_emitted_grows(pre.stream, post.stream.last()->Delay_0, any_move);
            }
        },
        _ => {},
    }
}

proof fn lemma_extends_pair(
    labels: Seq<Seq<char>>,
    ops: Seq<OperationView>,
    length: Option<PlanningMove>,
    length_label: Seq<char>,
    hop: Option<PlanningMove>,
    hop_label: Seq<char>,
)
    ensures
        ({
            let made = with_pair(labels, ops, length, length_label, hop, hop_label);
            extends(emitted(ops), emitted(made.1), made.2)
        }),
{
    let first = with_labelled(labels, ops, 0, length, length_label);
    lemma_extends_labelled(labels, ops, 0, length, length_label);
    lemma_extends_labelled(first.0, first.1, first.2, hop, hop_label);
    let made = with_pair(labels, ops, length, length_label, hop, hop_label);
    assert(emitted(made.1).take(emitted(ops).len() as int) =~= emitted(first.1).take(
        emitted(ops).len() as int,
    ));
}

} // verus!
