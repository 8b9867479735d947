//! The stream of planned operations: delays, runs of moves and fills.
use vstd::prelude::*;
use std::collections::VecDeque;
use std::time::Duration;
use crate::kind_tracker::Kind;
use crate::lookahead::{count_moves, first_move_limited, lemma_full_sweep_complete, lemma_sweep_bounds, plans, sweep, Junction, Lookahead, LookaheadView, Planned};

verus! {


/// The span of time that `Duration::from_millis` makes of a number of
/// milliseconds.
pub uninterp spec fn millis(ms: u64) -> Duration;

/// `Duration::from_millis` is a function of the number alone.
pub assume_specification[ Duration::from_millis ](ms: u64) -> (r: Duration)
    ensures
        r == millis(ms),
;

/// A stretch of time in which the machine does not move.
#[derive(Debug, Clone, Copy, PartialEq)]
pub enum Delay {
    /// A wait whose length the machine decides, with the time allowed for it.
    Indeterminate(Duration, Option<Kind>),
    /// A dwell of the given length.
    Pause(Duration),
}

impl Delay {
    pub fn duration(&self) -> (r: Duration)
        ensures
            r == (match *self {
                Delay::Indeterminate(d, _) => d,
                Delay::Pause(d) => d,
            }),
    {
        match self {
            Delay::Indeterminate(d, _) => *d,
            Delay::Pause(d) => *d,
        }
    }
}

/// A move as the stream of operations holds it. Its geometry and its
/// velocities are kept elsewhere, under `id`.
#[derive(Debug, Clone, Copy, PartialEq)]
pub struct PlanningMove {
    /// The handle under which the data of the move is kept.
    pub id: usize,
    /// The label of the move.
    pub kind: Option<Kind>,
    /// Whether the move covers no distance at all.
    pub zero_distance: bool,
}

impl PlanningMove {
    /// The same move under the label `kind`.
    pub open spec fn tagged(self, kind: Option<Kind>) -> PlanningMove {
        PlanningMove { id: self.id, kind, zero_distance: self.zero_distance }
    }

    pub fn is_zero_distance(&self) -> (r: bool)
        ensures
            r == self.zero_distance,
    {
        self.zero_distance
    }
}

/// One element of the planner's output.
#[derive(Debug, Clone, Copy, PartialEq)]
pub enum PlanningOperation {
    Delay(Delay),
    Move(PlanningMove),
    /// Stands for a command that made no motion.
    Fill,
}

impl PlanningOperation {
    pub fn is_fill(&self) -> (r: bool)
        ensures
            r == (*self is Fill),
    {
        matches!(self, PlanningOperation::Fill)
    }

    pub fn is_move(&self) -> (r: bool)
        ensures
            r == (*self is Move),
    {
        matches!(self, PlanningOperation::Move(_))
    }

    pub fn get_move(&self) -> (r: Option<PlanningMove>)
        ensures
            r == (match *self {
                PlanningOperation::Move(m) => Some(m),
                _ => None,
            }),
    {
        match self {
            PlanningOperation::Move(m) => Some(*m),
            _ => None,
        }
    }
}

/// One element of a run of moves.
#[derive(Debug, Clone, Copy, PartialEq)]
pub enum MoveSequenceOperation {
    Move(PlanningMove),
    Fill,
}

impl MoveSequenceOperation {
    pub fn is_fill(&self) -> (r: bool)
        ensures
            r == (*self is Fill),
    {
        matches!(self, MoveSequenceOperation::Fill)
    }

    /// The element as it leaves the planner.
    pub open spec fn emitted(self) -> PlanningOperation {
        match self {
            MoveSequenceOperation::Move(m) => PlanningOperation::Move(m),
            MoveSequenceOperation::Fill => PlanningOperation::Fill,
        }
    }

    pub fn into_operation(self) -> (r: PlanningOperation)
        ensures
            r == self.emitted(),
    {
        match self {
            MoveSequenceOperation::Move(m) => PlanningOperation::Move(m),
            MoveSequenceOperation::Fill => PlanningOperation::Fill,
        }
    }
}

/// The element that a move becomes in a run: a move that covers no distance
/// only holds its place.
pub open spec fn element_of(m: PlanningMove) -> MoveSequenceOperation {
    if m.zero_distance {
        MoveSequenceOperation::Fill
    } else {
        MoveSequenceOperation::Move(m)
    }
}

/// The last move among `moves`.
pub open spec fn last_move_of(moves: Seq<MoveSequenceOperation>) -> Option<PlanningMove>
    decreases moves.len(),
{
    if moves.len() == 0 {
        None
    } else {
        match moves.last() {
            MoveSequenceOperation::Move(m) => Some(m),
            MoveSequenceOperation::Fill => last_move_of(moves.drop_last()),
        }
    }
}

/// The first position at or after `i` that holds a move, or the length of
/// `moves`.
pub open spec fn skip_fills(moves: Seq<MoveSequenceOperation>, i: int) -> int
    decreases moves.len() - i,
{
    if 0 <= i < moves.len() && moves[i] is Fill {
        skip_fills(moves, i + 1)
    } else {
        i
    }
}

/// A run of moves and the count of its leading elements whose plan is final.
pub struct MoveSequenceView {
    pub moves: Seq<MoveSequenceOperation>,
    pub flush_count: nat,
}

impl MoveSequenceView {
    /// The run with one more element at its end.
    pub open spec fn push(self, o: MoveSequenceOperation) -> MoveSequenceView {
        MoveSequenceView { moves: self.moves.push(o), flush_count: self.flush_count }
    }

    /// The run without its first element, which has left it.
    pub open spec fn rest(self) -> MoveSequenceView {
        MoveSequenceView {
            moves: self.moves.drop_first(),
            flush_count: (self.flush_count - 1) as nat,
        }
    }

    pub open spec fn wf(self) -> bool {
        self.flush_count <= self.moves.len()
    }

    /// The state in which a sweep over the run starts.
    pub open spec fn lookahead(self, partial: bool) -> LookaheadView {
        LookaheadView::start(self.moves.len(), self.flush_count, partial)
    }

    /// The run after a sweep with the reports `facts`. A run that is final
    /// as a whole is left as it is. Else the final elements are those that
    /// the sweep found, and the fills that follow them.
    pub open spec fn processed(self, partial: bool, facts: Seq<Junction>) -> MoveSequenceView {
        if self.flush_count == self.moves.len() {
            self
        } else {
            MoveSequenceView {
                moves: self.moves,
                flush_count: skip_fills(
                    self.moves,
                    sweep(self.moves, facts, self.lookahead(partial)).0.result() as int,
                ) as nat,
            }
        }
    }

    /// The moves whose velocities that sweep sets, in order.
    pub open spec fn planned(self, partial: bool, facts: Seq<Junction>) -> Seq<Planned> {
        if self.flush_count == self.moves.len() {
            Seq::empty()
        } else {
            sweep(self.moves, facts, self.lookahead(partial)).1
        }
    }

    /// The element that leaves the run next: the first, if it is final.
    pub open spec fn next(self) -> Option<PlanningOperation> {
        if self.flush_count > 0 && self.moves.len() > 0 {
            Some(self.moves[0].emitted())
        } else {
            None
        }
    }

    /// The run once that element has left it.
    pub open spec fn after_next(self) -> MoveSequenceView {
        if self.flush_count > 0 && self.moves.len() > 0 {
            self.rest()
        } else {
            self
        }
    }
}

/// The moves made without a delay between them, in the order of the commands
/// that made them. The elements before `flush_count` may leave the run; the
/// plan of the others may still change as moves are added.
#[derive(Debug)]
pub struct MoveSequence {
    moves: VecDeque<MoveSequenceOperation>,
    flush_count: usize,
}

impl View for MoveSequence {
    type V = MoveSequenceView;

    closed spec fn view(&self) -> MoveSequenceView {
        MoveSequenceView { moves: self.moves@, flush_count: self.flush_count as nat }
    }
}

impl MoveSequence {
    pub fn new() -> (r: MoveSequence)
        ensures
            r@.moves == Seq::<MoveSequenceOperation>::empty(),
            r@.flush_count == 0,
    {
        MoveSequence { moves: VecDeque::new(), flush_count: 0 }
    }

    pub fn add_fill(&mut self)
        ensures
            final(self)@ == old(self)@.push(MoveSequenceOperation::Fill),
    {
        self.moves.push_back(MoveSequenceOperation::Fill);
    }

    /// Appends the move, or a fill in its place where it covers no distance.
    pub fn add_move(&mut self, move_cmd: PlanningMove)
        ensures
            final(self)@ == old(self)@.push(element_of(move_cmd)),
    {
        if move_cmd.zero_distance {
            self.add_fill();
        } else {
            self.moves.push_back(MoveSequenceOperation::Move(move_cmd));
        }
    }

    pub fn is_empty(&self) -> (r: bool)
        ensures
            r == (self@.moves.len() == 0),
    {
        self.moves.len() == 0
    }

    pub fn len(&self) -> (r: usize)
        ensures
            r == self@.moves.len(),
    {
        self.moves.len()
    }

    /// The count of leading elements whose plan is final.
    pub fn flush_count(&self) -> (r: usize)
        ensures
            r == self@.flush_count,
    {
        self.flush_count
    }

    /// The element at position `idx`.
    pub fn get(&self, idx: usize) -> (r: Option<MoveSequenceOperation>)
        ensures
            r == (if idx < self@.moves.len() {
                Some(self@.moves[idx as int])
            } else {
                None
            }),
    {
        if idx < self.moves.len() {
            Some(self.moves[idx])
        } else {
            None
        }
    }

    /// The move that was added last, which the next one joins.
    pub fn last_move(&self) -> (r: Option<PlanningMove>)
        ensures
            r == last_move_of(self@.moves),
    {
        let mut i: usize = self.moves.len();
        assert(self@.moves.take(i as int) == self@.moves);
        while i > 0
            invariant
                i <= self@.moves.len(),
                last_move_of(self@.moves) == last_move_of(self@.moves.take(i as int)),
            decreases i,
        {
            match self.moves[i - 1] {
                MoveSequenceOperation::Move(m) => {
                    return Some(m);
                },
                MoveSequenceOperation::Fill => {
                    assert(self@.moves.take(i as int).drop_last() == self@.moves.take(i - 1));
                },
            }
            i -= 1;
        }
        None
    }

    /// Plans the run. `facts[i]` is the report of the arithmetic on the
    /// move at position `i`. A partial sweep leaves the final elements alone
    /// and finds how many more are final; a full sweep plans all and makes
    /// all final. The moves whose velocities are to be set are added to
    /// `plan`, in the order in which they are to be set.
    pub fn process(&mut self, partial: bool, facts: &Vec<Junction>, plan: &mut Vec<Planned>)
        requires
            old(self)@.wf(),
            facts@.len() == old(self)@.moves.len(),
        ensures
            final(self)@ == old(self)@.processed(partial, facts@),
            final(plan)@ == old(plan)@ + old(self)@.planned(partial, facts@),
            final(self)@.wf(),
    {
        if self.flush_count == self.moves.len() {
            assert(plan@ =~= old(plan)@ + Seq::<Planned>::empty());
            return ;
        }
        let mut la = Lookahead::start(self.moves.len(), self.flush_count, partial);
        let ghost first = la@;
        let ghost before = plan@;
        let ghost mut made: Seq<Planned> = Seq::empty();
        assert(plan@ =~= before + made);
        loop
            invariant_except_break
                la@.wf(),
                la@.len == self@.moves.len(),
                *self == *old(self),
                facts@.len() == self@.moves.len(),
                plan@ == before + made,
                sweep(self@.moves, facts@, first) == (
                    sweep(self@.moves, facts@, la@).0,
                    made + sweep(self@.moves, facts@, la@).1,
                ),
            ensures
                la@.len == self@.moves.len(),
                la@.flush_count <= la@.len,
                *self == *old(self),
                plan@ == before + made,
                sweep(self@.moves, facts@, first) == (la@, made),
            decreases la@.cursor,
        {
            let ghost entered = la@;
            match la.next(&self.moves) {
                None => {
                    assert(made + Seq::<Planned>::empty() =~= made);
                    break ;
                },
                Some((idx, _)) => {
                    let ghost at = la@;
                    la.visit(idx, facts[idx], plan);
                    proof {
                        let v = at.visit(idx, facts@[idx as int]);
                        let rest = sweep(self@.moves, facts@, la@);
                        assert(sweep(self@.moves, facts@, entered) == (rest.0, v.planned + rest.1));
                        assert(made + (v.planned + rest.1) =~= (made + v.planned) + rest.1);
                        assert(before + (made + v.planned) =~= (before + made) + v.planned);
                        made = made + v.planned;
                    }
                },
            }
        }
        let mut n: usize = la.result();
        while n < self.moves.len() && self.moves[n].is_fill()
            invariant
                n <= self@.moves.len(),
                skip_fills(self@.moves, n as int) == skip_fills(self@.moves, la@.result() as int),
            decreases self@.moves.len() - n,
        {
            n += 1;
        }
        self.flush_count = n;
    }

    /// Plans all moves of the run and makes them final.
    pub fn flush(&mut self, facts: &Vec<Junction>, plan: &mut Vec<Planned>)
        requires
            old(self)@.wf(),
            facts@.len() == old(self)@.moves.len(),
        ensures
            final(self)@ == old(self)@.processed(false, facts@),
            final(plan)@ == old(plan)@ + old(self)@.planned(false, facts@),
            final(self)@.wf(),
    {
        self.process(false, facts, plan);
    }

    /// Plans the run as far as its plan can be final, then takes the first
    /// element out of the run, if it is among the final ones.
    pub fn next_move(&mut self, facts: &Vec<Junction>, plan: &mut Vec<Planned>) -> (r: Option<
        PlanningOperation,
    >)
        requires
            old(self)@.wf(),
            facts@.len() == old(self)@.moves.len(),
        ensures
            final(self)@ == old(self)@.processed(true, facts@).after_next(),
            r == old(self)@.processed(true, facts@).next(),
            final(plan)@ == old(plan)@ + old(self)@.planned(true, facts@),
            final(self)@.wf(),
    {
        self.process(true, facts, plan);
        if self.flush_count == 0 {
            return None;
        }
        match self.moves.pop_front() {
            None => None,
            Some(v) => {
                self.flush_count -= 1;
                Some(v.into_operation())
            },
        }
    }
}

/// The contents of a list of lists.
pub open spec fn rows<T>(lists: Seq<Vec<T>>) -> Seq<Seq<T>> {
    Seq::new(lists.len(), |i: int| lists[i]@)
}

/// One element of the stream: a delay, a run of moves, or the place of a
/// command that made no motion outside any run.
#[derive(Debug)]
pub enum OperationSequenceOperation {
    Delay(Delay),
    MoveSequence(MoveSequence),
    Fill,
}

/// An element of the stream, a run by its elements and its count of final
/// ones.
pub enum OperationView {
    Delay(Delay),
    MoveSequence(MoveSequenceView),
    Fill,
}

impl View for OperationSequenceOperation {
    type V = OperationView;

    open spec fn view(&self) -> OperationView {
        match *self {
            OperationSequenceOperation::Delay(d) => OperationView::Delay(d),
            OperationSequenceOperation::MoveSequence(ms) => OperationView::MoveSequence(ms@),
            OperationSequenceOperation::Fill => OperationView::Fill,
        }
    }
}

impl OperationView {
    /// The count of operations that the element still gives out.
    pub open spec fn weight(self) -> nat {
        match self {
            OperationView::MoveSequence(ms) => ms.moves.len(),
            _ => 1,
        }
    }

    pub open spec fn wf(self) -> bool {
        match self {
            OperationView::MoveSequence(ms) => ms.wf(),
            _ => true,
        }
    }
}

/// The count of operations that the stream `ops` still gives out.
pub open spec fn pending(ops: Seq<OperationView>) -> nat
    decreases ops.len(),
{
    if ops.len() == 0 {
        0
    } else {
        pending(ops.drop_last()) + ops.last().weight()
    }
}

/// Whether every run of the stream is well formed.
pub open spec fn stream_wf(ops: Seq<OperationView>) -> bool {
    forall|i: int| 0 <= i < ops.len() ==> (#[trigger] ops[i]).wf()
}

/// The run that a stream without a run at its end opens for a move.
pub open spec fn empty_run() -> MoveSequenceView {
    MoveSequenceView { moves: Seq::empty(), flush_count: 0 }
}

/// The stream with the element `o` added to the run at its end. A stream
/// that does not end in a run is returned as it is.
pub open spec fn extended(ops: Seq<OperationView>, o: MoveSequenceOperation) -> Seq<OperationView> {
    if ops.len() > 0 {
        match ops.last() {
            OperationView::MoveSequence(ms) => ops.update(
                ops.len() - 1,
                OperationView::MoveSequence(ms.push(o)),
            ),
            _ => ops,
        }
    } else {
        ops
    }
}

/// Whether the stream ends in a run of moves.
pub open spec fn ends_in_run(ops: Seq<OperationView>) -> bool {
    ops.len() > 0 && ops.last() is MoveSequence
}

/// The stream after a delay, which ends the run at its end.
pub open spec fn with_delay(ops: Seq<OperationView>, d: Delay) -> Seq<OperationView> {
    ops.push(OperationView::Delay(d))
}

/// The stream after a move, which joins the run at its end or opens one.
pub open spec fn with_move(ops: Seq<OperationView>, m: PlanningMove) -> Seq<OperationView> {
    if ends_in_run(ops) {
        extended(ops, element_of(m))
    } else {
        ops.push(OperationView::MoveSequence(empty_run().push(element_of(m))))
    }
}

/// The stream after a command that made no motion: it holds a place in the
/// run at the end, or a place of its own.
pub open spec fn with_fill(ops: Seq<OperationView>) -> Seq<OperationView> {
    if ends_in_run(ops) {
        extended(ops, MoveSequenceOperation::Fill)
    } else {
        ops.push(OperationView::Fill)
    }
}

/// The move that a move added to the stream would join.
pub open spec fn last_move_in(ops: Seq<OperationView>) -> Option<PlanningMove> {
    if ops.len() > 0 {
        match ops.last() {
            OperationView::MoveSequence(ms) => last_move_of(ms.moves),
            _ => None,
        }
    } else {
        None
    }
}

/// The stream with each run planned in full. `facts[i]` holds the reports on
/// the run at position `i`.
pub open spec fn flushed(ops: Seq<OperationView>, facts: Seq<Seq<Junction>>) -> Seq<OperationView> {
    Seq::new(
        ops.len(),
        |i: int|
            match ops[i] {
                OperationView::MoveSequence(ms) => OperationView::MoveSequence(
                    ms.processed(false, facts[i]),
                ),
                o => o,
            },
    )
}

/// The moves whose velocities a full planning of the stream sets, for each
/// element of the stream.
pub open spec fn flush_plans(ops: Seq<OperationView>, facts: Seq<Seq<Junction>>) -> Seq<
    Seq<Planned>,
> {
    Seq::new(
        ops.len(),
        |i: int|
            match ops[i] {
                OperationView::MoveSequence(ms) => ms.planned(false, facts[i]),
                _ => Seq::empty(),
            },
    )
}

/// Whether `facts` holds a report for each element of each run of `ops`.
pub open spec fn reports_fit(ops: Seq<OperationView>, facts: Seq<Seq<Junction>>) -> bool {
    &&& facts.len() == ops.len()
    &&& forall|i: int|
        0 <= i < ops.len() ==> match #[trigger] ops[i] {
            OperationView::MoveSequence(ms) => facts[i].len() == ms.moves.len(),
            _ => true,
        }
}

/// Whether `facts` holds a report for each element of the run with which
/// the stream begins, if it begins with one.
pub open spec fn front_reports_fit(ops: Seq<OperationView>, facts: Seq<Junction>) -> bool {
    ops.len() > 0 ==> match ops[0] {
        OperationView::MoveSequence(ms) => facts.len() == ms.moves.len(),
        _ => true,
    }
}

/// The operation that leaves the stream next. A delay or a fill at the
/// front leaves at once. A run at the front is planned as far as its plan
/// can be final, and gives its first element if that is final.
pub open spec fn next_in(ops: Seq<OperationView>, facts: Seq<Junction>) -> Option<
    PlanningOperation,
> {
    if ops.len() == 0 {
        None
    } else {
        match ops[0] {
            OperationView::Delay(d) => Some(PlanningOperation::Delay(d)),
            OperationView::Fill => Some(PlanningOperation::Fill),
            OperationView::MoveSequence(ms) => ms.processed(true, facts).next(),
        }
    }
}

/// The stream after that. A run that has given its last element is gone.
pub open spec fn after_next(ops: Seq<OperationView>, facts: Seq<Junction>) -> Seq<OperationView> {
    if ops.len() == 0 {
        ops
    } else {
        match ops[0] {
            OperationView::MoveSequence(ms) => {
                let rest = ms.processed(true, facts).after_next();
                if rest.moves.len() == 0 {
                    ops.drop_first()
                } else {
                    ops.update(0, OperationView::MoveSequence(rest))
                }
            },
            _ => ops.drop_first(),
        }
    }
}

/// The moves whose velocities are set on the way.
pub open spec fn next_plan(ops: Seq<OperationView>, facts: Seq<Junction>) -> Seq<Planned> {
    if ops.len() == 0 {
        Seq::empty()
    } else {
        match ops[0] {
            OperationView::MoveSequence(ms) => ms.planned(true, facts),
            _ => Seq::empty(),
        }
    }
}

/// The planner's output: delays, runs of moves and fills, in the order of
/// the commands that made them.
#[derive(Debug)]
pub struct OperationSequence {
    ops: VecDeque<OperationSequenceOperation>,
}

impl View for OperationSequence {
    type V = Seq<OperationView>;

    closed spec fn view(&self) -> Seq<OperationView> {
        Seq::new(self.ops@.len(), |i: int| self.ops@[i]@)
    }
}

impl OperationSequence {
    pub open spec fn wf(&self) -> bool {
        stream_wf(self@)
    }

    pub fn new() -> (r: OperationSequence)
        ensures
            r@ == Seq::<OperationView>::empty(),
            r.wf(),
    {
        let r = OperationSequence { ops: VecDeque::new() };
        assert(r@ =~= Seq::<OperationView>::empty());
        r
    }

    /// The count of elements in the stream.
    pub fn len(&self) -> (r: usize)
        ensures
            r == self@.len(),
    {
        self.ops.len()
    }

    /// The run at position `i` of the stream, if a run stands there.
    pub fn sequence(&self, i: usize) -> (r: Option<&MoveSequence>)
        ensures
            match r {
                Some(ms) => i < self@.len() && self@[i as int] == OperationView::MoveSequence(ms@),
                None => !(i < self@.len() && self@[i as int] is MoveSequence),
            },
    {
        if i < self.ops.len() {
            match &self.ops[i] {
                OperationSequenceOperation::MoveSequence(ms) => Some(ms),
                _ => None,
            }
        } else {
            None
        }
    }

    /// The move that a move added now would join.
    pub fn last_move(&self) -> (r: Option<PlanningMove>)
        ensures
            r == last_move_in(self@),
    {
        let n = self.ops.len();
        if n == 0 {
            return None;
        }
        match &self.ops[n - 1] {
            OperationSequenceOperation::MoveSequence(ms) => ms.last_move(),
            _ => None,
        }
    }

    pub fn add_delay(&mut self, delay: Delay)
        ensures
            final(self)@ == with_delay(old(self)@, delay),
            old(self).wf() ==> final(self).wf(),
    {
        self.ops.push_back(OperationSequenceOperation::Delay(delay));
        assert(self@ =~= with_delay(old(self)@, delay));
    }

    fn add_element(&mut self, o: MoveSequenceOperation)
        requires
            ends_in_run(old(self)@),
        ensures
            final(self)@ == extended(old(self)@, o),
            old(self).wf() ==> final(self).wf(),
    {
        match self.ops.pop_back() {
            Some(OperationSequenceOperation::MoveSequence(mut ms)) => {
                match o {
                    MoveSequenceOperation::Fill => ms.add_fill(),
                    MoveSequenceOperation::Move(m) => {
                        ms.moves.push_back(MoveSequenceOperation::Move(m));
                    },
                }
                self.ops.push_back(OperationSequenceOperation::MoveSequence(ms));
                assert(self@ =~= extended(old(self)@, o));
            },
            _ => {
                assert(false);
            },
        }
    }

    fn ends_in_run(&self) -> (r: bool)
        ensures
            r == ends_in_run(self@),
    {
        let n = self.ops.len();
        n > 0 && matches!(&self.ops[n - 1], OperationSequenceOperation::MoveSequence(_))
    }

    /// Adds a move to the run at the end of the stream, or opens a run with
    /// it. A move that covers no distance only holds its place.
    pub fn add_move(&mut self, move_cmd: PlanningMove)
        ensures
            final(self)@ == with_move(old(self)@, move_cmd),
            old(self).wf() ==> final(self).wf(),
    {
        if self.ends_in_run() {
            if move_cmd.zero_distance {
                self.add_element(MoveSequenceOperation::Fill);
            } else {
                self.add_element(MoveSequenceOperation::Move(move_cmd));
            }
        } else {
            let mut ms = MoveSequence::new();
            ms.add_move(move_cmd);
            self.ops.push_back(OperationSequenceOperation::MoveSequence(ms));
            assert(self@ =~= with_move(old(self)@, move_cmd));
        }
    }

    /// Holds the place of a command that made no motion.
    pub fn add_fill(&mut self)
        ensures
            final(self)@ == with_fill(old(self)@),
            old(self).wf() ==> final(self).wf(),
    {
        if self.ends_in_run() {
            self.add_element(MoveSequenceOperation::Fill);
        } else {
            self.ops.push_back(OperationSequenceOperation::Fill);
            assert(self@ =~= with_fill(old(self)@));
        }
    }

    /// Plans every run of the stream in full. `facts[i]` holds the reports
    /// on the run at position `i`; `plans[i]` receives the moves of that run
    /// whose velocities are to be set.
    pub fn flush(&mut self, facts: &Vec<Vec<Junction>>) -> (plans: Vec<Vec<Planned>>)
        requires
            old(self).wf(),
            reports_fit(old(self)@, rows(facts@)),
        ensures
            final(self)@ == flushed(old(self)@, rows(facts@)),
            rows(plans@) == flush_plans(old(self)@, rows(facts@)),
            final(self).wf(),
    {
        let mut done: VecDeque<OperationSequenceOperation> = VecDeque::new();
        let mut plans: Vec<Vec<Planned>> = Vec::new();
        let ghost all = self@;
        let ghost reports = rows(facts@);
        let n = self.ops.len();
        let mut i: usize = 0;
        while i < n
            invariant
                i <= n == all.len(),
                reports == rows(facts@),
                reports_fit(all, reports),
                stream_wf(all),
                self.ops@.len() == n - i,
                forall|k: int| 0 <= k < n - i ==> (#[trigger] self.ops@[k])@ == all[i + k],
                done@.len() == i,
                forall|k: int| 0 <= k < i ==> (#[trigger] done@[k])@ == flushed(all, reports)[k],
                forall|k: int| 0 <= k < i ==> (#[trigger] done@[k])@.wf(),
                plans@.len() == i,
                forall|k: int| 0 <= k < i ==> (#[trigger] plans@[k])@ == flush_plans(all, reports)[k],
            decreases n - i,
        {
            let ghost rest = self.ops@;
            let op = self.ops.pop_front();
            assert(forall|k: int| 0 <= k < n - i - 1 ==> self.ops@[k] == rest[k + 1]);
            assert(rest[0]@ == all[i as int]);
            let mut plan: Vec<Planned> = Vec::new();
            assert(rows(facts@)[i as int] == facts@[i as int]@);
            match op {
                Some(OperationSequenceOperation::MoveSequence(mut ms)) => {
                    assert(all[i as int].wf());
                    let ghost run = ms@;
                    ms.flush(&facts[i], &mut plan);
                    assert(plan@ =~= run.planned(false, facts@[i as int]@)) by {
                        assert(plan@ == Seq::<Planned>::empty() + run.planned(
                            false,
                            facts@[i as int]@,
                        ));
                    }
                    done.push_back(OperationSequenceOperation::MoveSequence(ms));
                },
                Some(other) => {
                    done.push_back(other);
                },
                None => {
                    assert(false);
                },
            }
            plans.push(plan);
            i += 1;
        }
        self.ops = done;
        assert(self@ =~= flushed(all, reports));
        assert(rows(plans@) =~= flush_plans(all, reports));
        plans
    }

    /// Takes the next operation out of the stream. `facts` holds the reports
    /// on the run with which the stream begins; `plan` receives the moves of
    /// that run whose velocities are to be set. `None` says that the stream
    /// is empty, or that the plan of the move at its front is not final.
    pub fn next_operation(&mut self, facts: &Vec<Junction>, plan: &mut Vec<Planned>) -> (r: Option<
        PlanningOperation,
    >)
        requires
            old(self).wf(),
            front_reports_fit(old(self)@, facts@),
        ensures
            r == next_in(old(self)@, facts@),
            final(self)@ == after_next(old(self)@, facts@),
            final(plan)@ == old(plan)@ + next_plan(old(self)@, facts@),
            final(self).wf(),
    {
        let ghost all = self@;
        assert(plan@ =~= plan@ + Seq::<Planned>::empty());
        match self.ops.pop_front() {
            Some(OperationSequenceOperation::MoveSequence(mut ms)) => {
                assert(all[0].wf());
                let m = ms.next_move(facts, plan);
                if !ms.is_empty() {
                    self.ops.push_front(OperationSequenceOperation::MoveSequence(ms));
                    assert(self@ =~= after_next(all, facts@));
                } else {
                    assert(self@ =~= after_next(all, facts@));
                }
                assert forall|i: int| 0 <= i < self@.len() implies (#[trigger] self@[i]).wf() by {
                    if i > 0 || ms@.moves.len() == 0 {
                        assert(self@[i] == all[i + (all.len() - self@.len())]);
                    }
                }
                m
            },
            Some(OperationSequenceOperation::Delay(d)) => {
                assert(self@ =~= all.drop_first());
                assert forall|i: int| 0 <= i < self@.len() implies (#[trigger] self@[i]).wf() by {
                    assert(self@[i] == all[i + 1]);
                }
                Some(PlanningOperation::Delay(d))
            },
            Some(OperationSequenceOperation::Fill) => {
                assert(self@ =~= all.drop_first());
                assert forall|i: int| 0 <= i < self@.len() implies (#[trigger] self@[i]).wf() by {
                    assert(self@[i] == all[i + 1]);
                }
                Some(PlanningOperation::Fill)
            },
            None => {
                assert(self@ =~= all);
                None
            },
        }
    }
}

/// The count of operations changes with one element as the weight of that
/// element does.
pub proof fn lemma_pending_update(ops: Seq<OperationView>, i: int, o: OperationView)
    requires
        0 <= i < ops.len(),
    ensures
        pending(ops.update(i, o)) + ops[i].weight() == pending(ops) + o.weight(),
    decreases ops.len(),
{
    if i == ops.len() - 1 {
        assert(ops.update(i, o).drop_last() =~= ops.drop_last());
    } else {
        lemma_pending_update(ops.drop_last(), i, o);
        assert(ops.update(i, o).drop_last() =~= ops.drop_last().update(i, o));
    }
}

/// Without its first element the stream gives out so many operations less
/// as that element held.
pub proof fn lemma_pending_drop_first(ops: Seq<OperationView>)
    requires
        ops.len() > 0,
    ensures
        pending(ops.drop_first()) + ops[0].weight() == pending(ops),
    decreases ops.len(),
{
    if ops.len() == 1 {
        assert(ops.drop_first() =~= Seq::<OperationView>::empty());
        assert(ops.drop_last() =~= Seq::<OperationView>::empty());
    } else {
        lemma_pending_drop_first(ops.drop_last());
        assert(ops.drop_first().drop_last() =~= ops.drop_last().drop_first());
    }
}

/// A delay, a move and a fill each add one operation to the stream.
pub proof fn lemma_pending_grows(ops: Seq<OperationView>, d: Delay, m: PlanningMove)
    ensures
        pending(with_delay(ops, d)) == pending(ops) + 1,
        pending(with_move(ops, m)) == pending(ops) + 1,
        pending(with_fill(ops)) == pending(ops) + 1,
{
    assert(with_delay(ops, d).drop_last() =~= ops);
    if ends_in_run(ops) {
        let ms = ops.last()->MoveSequence_0;
        lemma_pending_update(
            ops,
            ops.len() - 1,
            OperationView::MoveSequence(ms.push(element_of(m))),
        );
        lemma_pending_update(
            ops,
            ops.len() - 1,
            OperationView::MoveSequence(ms.push(MoveSequenceOperation::Fill)),
        );
    } else {
        assert(with_move(ops, m).drop_last() =~= ops);
        assert(with_fill(ops).drop_last() =~= ops);
    }
}

/// Planning changes the plan of the moves, never their count.
pub proof fn lemma_pending_flushed(ops: Seq<OperationView>, facts: Seq<Seq<Junction>>)
    ensures
        pending(flushed(ops, facts)) == pending(ops),
    decreases ops.len(),
{
    if ops.len() > 0 {
        lemma_pending_flushed(ops.drop_last(), facts);
        assert(flushed(ops, facts).drop_last() =~= flushed(ops.drop_last(), facts));
    }
}

/// An operation that leaves the stream is counted once: the stream gives
/// out one operation less after it, and as many as before where none left.
pub proof fn lemma_pending_next(ops: Seq<OperationView>, facts: Seq<Junction>)
    requires
        stream_wf(ops),
    ensures
        next_in(ops, facts) is Some ==> pending(after_next(ops, facts)) + 1 == pending(ops),
        next_in(ops, facts) is None ==> pending(after_next(ops, facts)) == pending(ops),
{
    if ops.len() > 0 {
        lemma_pending_drop_first(ops);
        match ops[0] {
            OperationView::MoveSequence(ms) => {
                assert(ops[0].wf());
                let rest = ms.processed(true, facts).after_next();
                lemma_pending_update(ops, 0, OperationView::MoveSequence(rest));
            },
            _ => {},
        }
    }
}

/// A delay, a move and a fill each leave the stream well formed.
pub proof fn lemma_stream_wf(ops: Seq<OperationView>, d: Delay, m: PlanningMove)
    requires
        stream_wf(ops),
    ensures
        stream_wf(with_delay(ops, d)),
        stream_wf(with_move(ops, m)),
        stream_wf(with_fill(ops)),
{
    assert forall|i: int| 0 <= i < with_delay(ops, d).len() implies (#[trigger] with_delay(
        ops,
        d,
    )[i]).wf() by {
        if i < ops.len() {
            assert(ops[i].wf());
        }
    }
    assert forall|i: int| 0 <= i < with_move(ops, m).len() implies (#[trigger] with_move(
        ops,
        m,
    )[i]).wf() by {
        if i < ops.len() {
            assert(ops[i].wf());
        }
    }
    assert forall|i: int| 0 <= i < with_fill(ops).len() implies (#[trigger] with_fill(ops)[i]).wf() by {
        if i < ops.len() {
            assert(ops[i].wf());
        }
    }
}

/// Skipping fills goes forward, and not past the end.
pub proof fn lemma_skip_fills(moves: Seq<MoveSequenceOperation>, i: int)
    requires
        0 <= i <= moves.len(),
    ensures
        i <= skip_fills(moves, i) <= moves.len(),
    decreases moves.len() - i,
{
    if i < moves.len() && moves[i] is Fill {
        lemma_skip_fills(moves, i + 1);
    }
}

/// Planning a run keeps its elements, and sets velocities only of moves
/// that are final after it. A partial sweep sets none of a move that was
/// final before.
pub proof fn lemma_frozen(run: MoveSequenceView, partial: bool, facts: Seq<Junction>)
    requires
        run.wf(),
        run.moves.len() <= usize::MAX,
    ensures
        run.processed(partial, facts).wf(),
        run.processed(partial, facts).moves == run.moves,
        forall|k: int|
            0 <= k < run.planned(partial, facts).len() ==> (#[trigger] run.planned(
                partial,
                facts,
            )[k]).idx < run.processed(partial, facts).flush_count && (partial ==> run.flush_count
                <= run.planned(partial, facts)[k].idx),
{
    if run.flush_count != run.moves.len() {
        let st = run.lookahead(partial);
        lemma_sweep_bounds(run.moves, facts, st);
        lemma_skip_fills(run.moves, sweep(run.moves, facts, st).0.result() as int);
    }
}

/// Planning a run in full, whose first move starts from rest, sets the
/// velocities of every move of the run, and of each once.
pub proof fn lemma_flush_complete(run: MoveSequenceView, facts: Seq<Junction>)
    requires
        run.wf(),
        run.moves.len() <= usize::MAX,
        run.flush_count < run.moves.len(),
        facts.len() == run.moves.len(),
        first_move_limited(run.moves, facts, 0),
    ensures
        run.planned(false, facts).len() == count_moves(
            run.moves,
            0,
            run.moves.len() as int,
        ),
        forall|i: int|
            0 <= i < run.moves.len() && (#[trigger] run.moves[i]) is Move
                ==> plans(run.planned(false, facts), i),
        run.processed(false, facts).flush_count == run.moves.len(),
{
    lemma_full_sweep_complete(run.moves, facts, run.flush_count);
    lemma_sweep_bounds(run.moves, facts, run.lookahead(false));
    lemma_skip_fills(run.moves, run.moves.len() as int);
}


/// The operations that the elements `moves` of a run give out, in order.
pub open spec fn emitted_moves(moves: Seq<MoveSequenceOperation>) -> Seq<PlanningOperation> {
    Seq::new(moves.len(), |i: int| moves[i].emitted())
}

/// The operations that one element of the stream gives out, in order.
pub open spec fn emitted_by(o: OperationView) -> Seq<PlanningOperation> {
    match o {
        OperationView::Delay(d) => seq![PlanningOperation::Delay(d)],
        OperationView::Fill => seq![PlanningOperation::Fill],
        OperationView::MoveSequence(ms) => emitted_moves(ms.moves),
    }
}

/// The operations that the stream `ops` gives out from now on, in order,
/// once the plans of its moves are final.
pub open spec fn emitted(ops: Seq<OperationView>) -> Seq<PlanningOperation>
    decreases ops.len(),
{
    if ops.len() == 0 {
        Seq::empty()
    } else {
        emitted(ops.drop_last()) + emitted_by(ops.last())
    }
}

/// The count of operations that a stream gives out is the length of what it
/// gives out.
pub proof fn lemma_emitted_len(ops: Seq<OperationView>)
    ensures
        emitted(ops).len() == pending(ops),
    decreases ops.len(),
{
    if ops.len() > 0 {
        lemma_emitted_len(ops.drop_last());
    }
}

/// What a stream gives out is what its first element gives out, then what
/// the rest gives out.
pub proof fn lemma_emitted_front(ops: Seq<OperationView>)
    requires
        ops.len() > 0,
    ensures
        emitted(ops) == emitted_by(ops[0]) + emitted(ops.drop_first()),
    decreases ops.len(),
{
    if ops.len() == 1 {
        assert(ops.drop_last() =~= Seq::<OperationView>::empty());
        assert(ops.drop_first() =~= Seq::<OperationView>::empty());
        assert(emitted(ops) =~= emitted_by(ops[0]) + emitted(ops.drop_first()));
    } else {
        lemma_emitted_front(ops.drop_last());
        assert(ops.drop_first().drop_last() =~= ops.drop_last().drop_first());
        assert(emitted(ops) =~= emitted_by(ops[0]) + emitted(ops.drop_first()));
    }
}

/// What is added to the stream leaves it after all that was there before:
/// a delay, a move and a fill each add one operation at the end of what the
/// stream gives out.
pub proof fn lemma_emitted_grows(ops: Seq<OperationView>, d: Delay, m: PlanningMove)
    ensures
        emitted(with_delay(ops, d)) == emitted(ops).push(PlanningOperation::Delay(d)),
        emitted(with_move(ops, m)) == emitted(ops).push(element_of(m).emitted()),
        emitted(with_fill(ops)) == emitted(ops).push(PlanningOperation::Fill),
{
    assert(with_delay(ops, d).drop_last() =~= ops);
    assert(emitted(with_delay(ops, d)) =~= emitted(ops).push(PlanningOperation::Delay(d)));
    if ends_in_run(ops) {
        let ms = ops.last()->MoveSequence_0;
        let a = with_move(ops, m);
        assert(a.drop_last() =~= ops.drop_last());
        assert(emitted_moves(ms.push(element_of(m)).moves) =~= emitted_moves(ms.moves).push(
            element_of(m).emitted(),
        ));
        assert(emitted(a) =~= emitted(ops).push(element_of(m).emitted()));
        let b = with_fill(ops);
        assert(b.drop_last() =~= ops.drop_last());
        assert(emitted_moves(ms.push(MoveSequenceOperation::Fill).moves) =~= emitted_moves(
            ms.moves,
        ).push(PlanningOperation::Fill));
        assert(emitted(b) =~= emitted(ops).push(PlanningOperation::Fill));
    } else {
        assert(with_move(ops, m).drop_last() =~= ops);
        assert(emitted_moves(empty_run().push(element_of(m)).moves) =~= seq![
            element_of(m).emitted(),
        ]);
        assert(emitted(with_move(ops, m)) =~= emitted(ops).push(element_of(m).emitted()));
        assert(with_fill(ops).drop_last() =~= ops);
        assert(emitted(with_fill(ops)) =~= emitted(ops).push(PlanningOperation::Fill));
    }
}

/// Planning changes nothing of what the stream gives out.
pub proof fn lemma_emitted_flushed(ops: Seq<OperationView>, facts: Seq<Seq<Junction>>)
    ensures
        emitted(flushed(ops, facts)) == emitted(ops),
    decreases ops.len(),
{
    if ops.len() > 0 {
        lemma_emitted_flushed(ops.drop_last(), facts);
        assert(flushed(ops, facts).drop_last() =~= flushed(ops.drop_last(), facts));
    }
}

/// The operation that leaves the stream is the first of those that the
/// stream gives out, and the others follow in their order: however the
/// taking of operations is spread among the commands, the operations come
/// out in the order in which the commands made them, each once.
pub proof fn lemma_emitted_next(ops: Seq<OperationView>, facts: Seq<Junction>)
    requires
        stream_wf(ops),
    ensures
        match next_in(ops, facts) {
            Some(o) => emitted(ops).len() > 0 && emitted(ops)[0] == o && emitted(
                after_next(ops, facts),
            ) == emitted(ops).drop_first(),
            None => emitted(after_next(ops, facts)) == emitted(ops),
        },
{
    if ops.len() > 0 {
        lemma_emitted_front(ops);
        let rest = ops.drop_first();
        match ops[0] {
            OperationView::MoveSequence(ms) => {
                assert(ops[0].wf());
                let run = ms.processed(true, facts);
                assert(run.moves == ms.moves);
                let left = run.after_next();
                if left.moves.len() == 0 {
                    if run.next() is Some {
                        assert(emitted_moves(ms.moves) =~= seq![ms.moves[0].emitted()]);
                        assert(emitted(ops).drop_first() =~= emitted(rest));
                    } else {
                        assert(emitted_moves(ms.moves) =~= Seq::<PlanningOperation>::empty());
                        assert(emitted(ops) =~= emitted(rest));
                    }
                } else {
                    let after = ops.update(0, OperationView::MoveSequence(left));
                    lemma_emitted_front(after);
                    assert(after.drop_first() =~= rest);
                    if run.next() is Some {
                        assert(emitted_moves(left.moves) =~= emitted_moves(ms.moves).drop_first());
                        assert(emitted(after) =~= emitted(ops).drop_first());
                    } else {
                        assert(left == run);
                        assert(emitted(after) =~= emitted(ops));
                    }
                }
            },
            _ => {
                assert(emitted(ops).drop_first() =~= emitted(rest));
            },
        }
    }
}

} // verus!
