//! The decisions of the backward sweep that plans a run of moves. The sweep
//! walks the moves from the last to the first. The arithmetic on velocities
//! is done by the caller, who reports of each move what it found; which moves
//! are planned and under which peak, which wait for a later peak, and how far
//! the run may be emitted, is decided here.
use vstd::prelude::*;
use std::collections::VecDeque;
use crate::operations::{MoveSequenceOperation, PlanningMove};

verus! {

/// What the arithmetic found at one move of the sweep.
#[derive(Debug, Clone, Copy, PartialEq, Eq)]
pub struct Junction {
    /// The smoothed entry velocity is capped by the junction, not by what
    /// the moves behind can brake from.
    pub limited: bool,
    /// From that entry velocity the move can reach more than the smoothed
    /// entry velocity of the move behind it.
    pub rising: bool,
    /// The cruise velocity of a peak at this move is not zero.
    pub cruising: bool,
}

/// A move whose velocities are to be set.
#[derive(Debug, Clone, Copy, PartialEq, Eq)]
pub struct Planned {
    /// The position of the move in its run.
    pub idx: usize,
    /// The position of the move at which the peak opened whose cruise
    /// velocity bounds the move; `None` where no peak has opened.
    pub peak: Option<usize>,
    /// Whether the move waited for the peak. Such moves are planned in a
    /// chain from the peak backwards, each bounded by the one before it.
    pub delayed: bool,
}

/// The state of a sweep.
pub struct LookaheadView {
    /// The count of elements in the run.
    pub len: nat,
    /// The first position that the sweep covers.
    pub floor: nat,
    /// The positions from here on have been visited.
    pub cursor: nat,
    /// The count of leading elements whose plan is final after the sweep.
    pub flush_count: nat,
    /// Whether that count is still to be found.
    pub update_flush_count: bool,
    /// The positions of the moves that wait for a peak, oldest first.
    pub delayed: Seq<usize>,
    /// The position of the move at which the last peak opened.
    pub peak: Option<usize>,
    /// Whether the cruise velocity of that peak is not zero.
    pub cruising: bool,
}

/// What the report of one move leads to.
pub struct Visit {
    pub state: LookaheadView,
    pub planned: Seq<Planned>,
}

/// The waiting moves `delayed`, oldest first, as they are planned under the
/// peak at `peak`: the most recent first.
pub open spec fn chain(delayed: Seq<usize>, peak: usize) -> Seq<Planned> {
    Seq::new(
        delayed.len(),
        |i: int| Planned { idx: delayed[delayed.len() - 1 - i], peak: Some(peak), delayed: true },
    )
}

impl LookaheadView {
    pub open spec fn wf(self) -> bool {
        self.floor <= self.cursor <= self.len && self.flush_count <= self.len
    }

    /// The state at the start of a sweep over a run of `len` elements of
    /// which `flushed` are final. A partial sweep leaves those alone and
    /// looks for a new count; a full sweep covers all and makes all final.
    pub open spec fn start(len: nat, flushed: nat, partial: bool) -> LookaheadView {
        LookaheadView {
            len,
            floor: if partial {
                flushed
            } else {
                0
            },
            cursor: len,
            flush_count: if partial {
                flushed
            } else {
                len
            },
            update_flush_count: partial,
            delayed: Seq::empty(),
            peak: None,
            cruising: false,
        }
    }

    /// The report `j` of the move at position `idx`. A move whose smoothed
    /// velocity is limited opens a peak if it rises or if moves wait.
    /// Where the count of final elements is still sought and the peak
    /// before this one has a cruise velocity, the count becomes `idx`. Under
    /// a new peak the waiting moves are planned, the most recent first, if
    /// they stand before the count, and the waiting list is emptied. The
    /// limited move itself is planned under the last peak, if it stands
    /// before the count. A move that is not limited joins the waiting list.
    pub open spec fn visit(self, idx: usize, j: Junction) -> Visit {
        let opens = j.limited && (j.rising || self.delayed.len() > 0);
        let freezes = opens && self.update_flush_count && self.cruising;
        let flush_count = if freezes {
            idx as nat
        } else {
            self.flush_count
        };
        let update = self.update_flush_count && !freezes;
        let may_plan = !update && idx < flush_count;
        let peak = if opens {
            Some(idx)
        } else {
            self.peak
        };
        let waiting = if opens && may_plan {
            chain(self.delayed, idx)
        } else {
            Seq::empty()
        };
        let this = if j.limited && may_plan {
            seq![Planned { idx, peak, delayed: false }]
        } else {
            Seq::empty()
        };
        Visit {
            state: LookaheadView {
                len: self.len,
                floor: self.floor,
                cursor: self.cursor,
                flush_count,
                update_flush_count: update,
                delayed: if opens {
                    Seq::empty()
                } else if j.limited {
                    self.delayed
                } else {
                    self.delayed.push(idx)
                },
                peak,
                cruising: if opens {
                    j.cruising
                } else {
                    self.cruising
                },
            },
            planned: waiting + this,
        }
    }

    /// The count of final elements that the sweep leaves, before the fills
    /// that follow it are added: none where no count was found.
    pub open spec fn result(self) -> nat {
        if self.update_flush_count {
            0
        } else {
            self.flush_count
        }
    }
}

/// The last position in `floor..cursor` that holds a move.
pub open spec fn move_before(moves: Seq<MoveSequenceOperation>, floor: int, cursor: int) -> Option<
    int,
>
    decreases cursor,
{
    if cursor <= floor || cursor <= 0 || cursor > moves.len() {
        None
    } else if moves[cursor - 1] is Move {
        Some(cursor - 1)
    } else {
        move_before(moves, floor, cursor - 1)
    }
}

/// The rest of a sweep over `moves` from the state `st`: each move before
/// the cursor is visited with its report from `facts`, the last first. The
/// result is the state at the end and the moves to plan, in order.
pub open spec fn sweep(
    moves: Seq<MoveSequenceOperation>,
    facts: Seq<Junction>,
    st: LookaheadView,
) -> (LookaheadView, Seq<Planned>)
    decreases st.cursor,
{
    match move_before(moves, st.floor as int, st.cursor as int) {
        Some(idx) if 0 <= idx < st.cursor && idx < facts.len() => {
            let at = LookaheadView { cursor: idx as nat, ..st };
            let v = at.visit(idx as usize, facts[idx]);
            if v.state.cursor < st.cursor {
                let rest = sweep(moves, facts, v.state);
                (rest.0, v.planned + rest.1)
            } else {
                (st, Seq::empty())
            }
        },
        _ => (LookaheadView { cursor: st.floor, ..st }, Seq::empty()),
    }
}

/// A sweep in progress.
#[derive(Debug)]
pub struct Lookahead {
    len: usize,
    floor: usize,
    cursor: usize,
    flush_count: usize,
    update_flush_count: bool,
    delayed: Vec<usize>,
    peak: Option<usize>,
    cruising: bool,
}

impl View for Lookahead {
    type V = LookaheadView;

    closed spec fn view(&self) -> LookaheadView {
        LookaheadView {
            len: self.len as nat,
            floor: self.floor as nat,
            cursor: self.cursor as nat,
            flush_count: self.flush_count as nat,
            update_flush_count: self.update_flush_count,
            delayed: self.delayed@,
            peak: self.peak,
            cruising: self.cruising,
        }
    }
}

impl Lookahead {
    /// Starts a sweep over a run of `len` elements of which `flushed` are
    /// final.
    pub fn start(len: usize, flushed: usize, partial: bool) -> (r: Lookahead)
        requires
            flushed <= len,
        ensures
            r@ == LookaheadView::start(len as nat, flushed as nat, partial),
            r@.wf(),
    {
        Lookahead {
            len,
            floor: if partial {
                flushed
            } else {
                0
            },
            cursor: len,
            flush_count: if partial {
                flushed
            } else {
                len
            },
            update_flush_count: partial,
            delayed: Vec::new(),
            peak: None,
            cruising: false,
        }
    }

    /// Goes on to the next move of the sweep, which is the last one before
    /// those visited, and returns its position; `None` when the sweep is
    /// over. `moves` are the elements of the run.
    pub fn next(&mut self, moves: &VecDeque<MoveSequenceOperation>) -> (r: Option<
        (usize, PlanningMove),
    >)
        requires
            old(self)@.wf(),
            moves@.len() == old(self)@.len,
        ensures
            final(self)@.wf(),
            final(self)@ == (LookaheadView { cursor: final(self)@.cursor, ..old(self)@ }),
            match r {
                Some((idx, m)) => move_before(
                    moves@,
                    old(self)@.floor as int,
                    old(self)@.cursor as int,
                ) == Some(idx as int) && moves@[idx as int] == MoveSequenceOperation::Move(m)
                    && final(self)@.cursor == idx && idx < old(self)@.cursor,
                None => move_before(moves@, old(self)@.floor as int, old(self)@.cursor as int)
                    is None && final(self)@.cursor == old(self)@.floor,
            },
    {
        while self.cursor > self.floor
            invariant
                self@.wf(),
                moves@.len() == self@.len,
                self@.cursor <= old(self)@.cursor,
                self@ == (LookaheadView { cursor: self@.cursor, ..old(self)@ }),
                move_before(moves@, self@.floor as int, self@.cursor as int) == move_before(
                    moves@,
                    old(self)@.floor as int,
                    old(self)@.cursor as int,
                ),
            decreases self.cursor,
        {
            self.cursor -= 1;
            match moves[self.cursor] {
                MoveSequenceOperation::Move(m) => {
                    return Some((self.cursor, m));
                },
                MoveSequenceOperation::Fill => {},
            }
        }
        None
    }

    /// Takes the report `j` of the move at position `idx` and adds to `plan`
    /// the moves that are to be planned now.
    pub fn visit(&mut self, idx: usize, j: Junction, plan: &mut Vec<Planned>)
        ensures
            final(self)@ == old(self)@.visit(idx, j).state,
            final(plan)@ == old(plan)@ + old(self)@.visit(idx, j).planned,
            old(self)@.wf() && idx < old(self)@.len ==> final(self)@.wf(),
    {
        let ghost before = plan@;
        assert(plan@ =~= before + Seq::<Planned>::empty());
        if j.limited {
            if j.rising || self.delayed.len() > 0 {
                if self.update_flush_count && self.cruising {
                    self.flush_count = idx;
                    self.update_flush_count = false;
                }
                self.peak = Some(idx);
                self.cruising = j.cruising;
                if self.delayed.len() > 0 {
                    if !self.update_flush_count && idx < self.flush_count {
                        let mut i: usize = self.delayed.len();
                        let ghost entered = *self;
                        let ghost all = chain(self.delayed@, idx);
                        assert(all.take(0) =~= Seq::<Planned>::empty());
                        while i > 0
                            invariant
                                *self == entered,
                                all == chain(self.delayed@, idx),
                                i <= self.delayed@.len(),
                                plan@ == before + all.take(self.delayed@.len() - i),
                            decreases i,
                        {
                            i -= 1;
                            plan.push(
                                Planned { idx: self.delayed[i], peak: Some(idx), delayed: true },
                            );
                            proof {
                                let n = self.delayed@.len() - i;
                                assert(all.take(n) =~= all.take(n - 1).push(all[n - 1]));
                                assert(before + all.take(n) =~= (before + all.take(n - 1)).push(
                                    all[n - 1],
                                ));
                            }
                        }
                        assert(all.take(self.delayed@.len() as int) =~= all);
                    }
                    self.delayed.clear();
                } else {
                    assert(chain(old(self)@.delayed, idx) =~= Seq::<Planned>::empty());
                    assert(old(self)@.delayed =~= Seq::<usize>::empty());
                }
            }
            if !self.update_flush_count && idx < self.flush_count {
                let ghost waiting = plan@;
                plan.push(Planned { idx, peak: self.peak, delayed: false });
                assert(plan@ =~= before + (old(self)@.visit(idx, j).planned));
            } else {
                assert(plan@ =~= before + (old(self)@.visit(idx, j).planned));
            }
        } else {
            self.delayed.push(idx);
        }
    }

    /// The count of final elements that the sweep leaves, before the fills
    /// that follow it are added.
    pub fn result(&self) -> (r: usize)
        ensures
            r == self@.result(),
    {
        if self.update_flush_count {
            0
        } else {
            self.flush_count
        }
    }
}

/// Whether the moves that wait lie in the part of the run that the sweep
/// covers, and the sweep has come to the elements that are final once their
/// count is found.
pub open spec fn in_bounds(st: LookaheadView) -> bool {
    &&& st.wf()
    &&& st.len <= usize::MAX
    &&& (!st.update_flush_count ==> st.cursor <= st.flush_count)
    &&& forall|i: int|
        0 <= i < st.delayed.len() ==> st.floor <= (#[trigger] st.delayed[i]) < st.len && (
        !st.update_flush_count ==> st.delayed[i] < st.flush_count)
}

/// The report of one move keeps the sweep in bounds, and sets velocities
/// only of moves that the sweep covers and that are final after it.
pub proof fn lemma_visit_bounds(st: LookaheadView, idx: usize, j: Junction)
    requires
        in_bounds(st),
        st.cursor == idx,
        st.floor <= idx < st.len,
        !st.update_flush_count ==> idx < st.flush_count,
    ensures
        ({
            let v = st.visit(idx, j);
            &&& in_bounds(v.state)
            &&& v.state.floor == st.floor
            &&& v.state.len == st.len
            &&& v.state.cursor == st.cursor
            &&& (!st.update_flush_count ==> v.state.result() == st.flush_count)
            &&& (v.state.update_flush_count ==> v.planned.len() == 0)
            &&& forall|k: int|
                0 <= k < v.planned.len() ==> st.floor <= (#[trigger] v.planned[k]).idx
                    < v.state.result()
        }),
{
    let v = st.visit(idx, j);
    let waiting = chain(st.delayed, idx);
    assert forall|i: int| 0 <= i < v.state.delayed.len() implies st.floor <= (
    #[trigger] v.state.delayed[i]) < st.len && (!v.state.update_flush_count ==> v.state.delayed[i]
        < v.state.flush_count) by {
        if i < st.delayed.len() {
            assert(v.state.delayed[i] == st.delayed[i]);
        }
    }
    assert forall|k: int| 0 <= k < v.planned.len() implies st.floor <= (#[trigger] v.planned[k]).idx
        < v.state.result() by {
        if k < waiting.len() {
            assert(v.planned[k] == waiting[k]);
            assert(waiting[k].idx == st.delayed[st.delayed.len() - 1 - k]);
        }
    }
}

/// A sweep sets velocities only in the part of the run that it covers, and
/// only of moves that are final after it: a partial sweep leaves the moves
/// alone that were final before, and no move whose plan may still change is
/// given velocities. Once the count of final elements is found it stays.
pub proof fn lemma_sweep_bounds(
    moves: Seq<MoveSequenceOperation>,
    facts: Seq<Junction>,
    st: LookaheadView,
)
    requires
        in_bounds(st),
        moves.len() == st.len,
    ensures
        ({
            let end = sweep(moves, facts, st);
            &&& end.0.wf()
            &&& end.0.floor == st.floor
            &&& end.0.len == st.len
            &&& (!st.update_flush_count ==> end.0.result() == st.flush_count)
            &&& (end.0.update_flush_count ==> end.1.len() == 0)
            &&& forall|k: int|
                0 <= k < end.1.len() ==> st.floor <= (#[trigger] end.1[k]).idx < end.0.result()
        }),
    decreases st.cursor,
{
    match move_before(moves, st.floor as int, st.cursor as int) {
        Some(idx) => {
            lemma_move_before(moves, st.floor as int, st.cursor as int);
            if 0 <= idx < st.cursor && idx < facts.len() {
                let at = LookaheadView { cursor: idx as nat, ..st };
                let v = at.visit(idx as usize, facts[idx]);
                lemma_visit_bounds(at, idx as usize, facts[idx]);
                lemma_sweep_bounds(moves, facts, v.state);
                let rest = sweep(moves, facts, v.state);
                let end = sweep(moves, facts, st);
                assert(end == (rest.0, v.planned + rest.1));
                assert forall|k: int| 0 <= k < end.1.len() implies st.floor <= (
                #[trigger] end.1[k]).idx < end.0.result() by {
                    if k < v.planned.len() {
                        assert(end.1[k] == v.planned[k]);
                        assert(!v.state.update_flush_count);
                    } else {
                        assert(end.1[k] == rest.1[k - v.planned.len()]);
                    }
                }
            }
        },
        None => {},
    }
}

/// The position that `move_before` gives lies in `floor..cursor` and holds
/// a move.
pub proof fn lemma_move_before(moves: Seq<MoveSequenceOperation>, floor: int, cursor: int)
    requires
        0 <= floor,
        cursor <= moves.len(),
    ensures
        match move_before(moves, floor, cursor) {
            Some(idx) => floor <= idx < cursor && moves[idx] is Move,
            None => true,
        },
    decreases cursor,
{
    if !(cursor <= floor || cursor <= 0 || cursor > moves.len()) && !(moves[cursor - 1] is Move) {
        lemma_move_before(moves, floor, cursor - 1);
    }
}

/// The count of moves among the elements `lo..hi`.
pub open spec fn count_moves(moves: Seq<MoveSequenceOperation>, lo: int, hi: int) -> nat
    decreases hi - lo,
{
    if hi <= lo || hi > moves.len() || lo < 0 {
        0
    } else {
        count_moves(moves, lo, hi - 1) + if moves[hi - 1] is Move {
            1nat
        } else {
            0nat
        }
    }
}

/// Whether the velocities of the move at position `idx` are set by `plan`.
pub open spec fn plans(plan: Seq<Planned>, idx: int) -> bool {
    exists|k: int| 0 <= k < plan.len() && (#[trigger] plan[k]).idx == idx
}

/// Whether the move at position `idx` is among those that wait.
pub open spec fn waits(delayed: Seq<usize>, idx: int) -> bool {
    exists|k: int| 0 <= k < delayed.len() && #[trigger] delayed[k] == idx
}

/// Whether the sweep is a full one: all elements are final after it.
pub open spec fn full(st: LookaheadView) -> bool {
    !st.update_flush_count && st.flush_count == st.len
}

/// Whether the first move at or after `floor` is limited at its junction,
/// as a move is that starts from rest.
pub open spec fn first_move_limited(
    moves: Seq<MoveSequenceOperation>,
    facts: Seq<Junction>,
    floor: int,
) -> bool {
    forall|i: int|
        floor <= i < moves.len() && (#[trigger] moves[i]) is Move && move_before(moves, floor, i)
            is None ==> i < facts.len() && facts[i].limited
}

/// Between the position that `move_before` gives and `cursor` stand fills
/// alone; where it gives none, fills alone stand in `floor..cursor`.
pub proof fn lemma_fills_behind(moves: Seq<MoveSequenceOperation>, floor: int, cursor: int)
    requires
        0 <= floor <= cursor <= moves.len(),
    ensures
        match move_before(moves, floor, cursor) {
            Some(idx) => floor <= idx < cursor && moves[idx] is Move && count_moves(
                moves,
                floor,
                cursor,
            ) == count_moves(moves, floor, idx) + 1 && forall|i: int|
                idx < i < cursor ==> !((#[trigger] moves[i]) is Move),
            None => count_moves(moves, floor, cursor) == 0 && forall|i: int|
                floor <= i < cursor ==> !((#[trigger] moves[i]) is Move),
        },
    decreases cursor,
{
    if cursor > floor && !(moves[cursor - 1] is Move) {
        lemma_fills_behind(moves, floor, cursor - 1);
    }
}

/// In a full sweep every move that is visited is planned or waits, a move
/// that waits is planned when the next peak opens, and no move is planned
/// twice over: the plan and the waiting list together grow by one with
/// every move.
pub proof fn lemma_full_sweep(
    moves: Seq<MoveSequenceOperation>,
    facts: Seq<Junction>,
    st: LookaheadView,
)
    requires
        in_bounds(st),
        full(st),
        moves.len() == st.len,
        facts.len() == moves.len(),
        first_move_limited(moves, facts, st.floor as int),
    ensures
        ({
            let end = sweep(moves, facts, st);
            &&& full(end.0)
            &&& forall|i: int|
                st.floor <= i < st.cursor && (#[trigger] moves[i]) is Move ==> plans(end.1, i)
                    || waits(end.0.delayed, i)
            &&& forall|k: int|
                0 <= k < st.delayed.len() ==> plans(end.1, (#[trigger] st.delayed[k]) as int)
                    || waits(end.0.delayed, st.delayed[k] as int)
            &&& end.1.len() + end.0.delayed.len() == st.delayed.len() + count_moves(
                moves,
                st.floor as int,
                st.cursor as int,
            )
            &&& (move_before(moves, st.floor as int, st.cursor as int) is Some
                ==> end.0.delayed.len() == 0)
            &&& (move_before(moves, st.floor as int, st.cursor as int) is None ==> end.0.delayed
                == st.delayed)
        }),
    decreases st.cursor,
{
    lemma_fills_behind(moves, st.floor as int, st.cursor as int);
    let end = sweep(moves, facts, st);
    match move_before(moves, st.floor as int, st.cursor as int) {
        Some(idx) => {
            let at = LookaheadView { cursor: idx as nat, ..st };
            let j = facts[idx];
            let v = at.visit(idx as usize, j);
            lemma_visit_bounds(at, idx as usize, j);
            lemma_full_sweep(moves, facts, v.state);
            lemma_fills_behind(moves, st.floor as int, idx);
            let rest = sweep(moves, facts, v.state);
            assert(end == (rest.0, v.planned + rest.1));
            let waiting = chain(st.delayed, idx as usize);
            // What the visit made of the move and of those that waited.
            if j.limited {
                assert(v.state.delayed.len() == 0);
                assert(v.planned.len() == st.delayed.len() + 1) by {
                    if !(j.rising || st.delayed.len() > 0) {
                        assert(st.delayed.len() == 0);
                    }
                }
                assert(v.planned[v.planned.len() - 1].idx == idx);
                assert(plans(end.1, idx)) by {
                    assert(end.1[v.planned.len() - 1] == v.planned[v.planned.len() - 1]);
                }
                assert forall|k: int| 0 <= k < st.delayed.len() implies plans(
                    end.1,
                    (#[trigger] st.delayed[k]) as int,
                ) by {
                    let at_k = st.delayed.len() - 1 - k;
                    assert(v.planned[at_k] == waiting[at_k]);
                    assert(end.1[at_k] == v.planned[at_k]);
                }
            } else {
                assert(v.planned.len() == 0);
                assert(v.state.delayed == st.delayed.push(idx as usize));
                assert(v.state.delayed[st.delayed.len() as int] == idx);
                assert(plans(end.1, idx) || waits(end.0.delayed, idx)) by {
                    if plans(rest.1, idx) {
                        let k = choose|k: int| 0 <= k < rest.1.len() && (#[trigger] rest.1[k]).idx == idx;
                        assert(end.1[v.planned.len() + k] == rest.1[k]);
                    }
                }
                assert forall|k: int| 0 <= k < st.delayed.len() implies plans(
                    end.1,
                    (#[trigger] st.delayed[k]) as int,
                ) || waits(end.0.delayed, st.delayed[k] as int) by {
                    assert(v.state.delayed[k] == st.delayed[k]);
                    let d = st.delayed[k] as int;
                    if plans(rest.1, d) {
                        let q = choose|q: int| 0 <= q < rest.1.len() && (#[trigger] rest.1[q]).idx == d;
                        assert(end.1[v.planned.len() + q] == rest.1[q]);
                    }
                }
            }
            assert forall|i: int|
                st.floor <= i < st.cursor && (#[trigger] moves[i]) is Move implies plans(end.1, i)
                || waits(end.0.delayed, i) by {
                if i < idx {
                    if plans(rest.1, i) {
                        let q = choose|q: int| 0 <= q < rest.1.len() && (#[trigger] rest.1[q]).idx == i;
                        assert(end.1[v.planned.len() + q] == rest.1[q]);
                    }
                }
            }
            if move_before(moves, st.floor as int, idx) is None {
                assert(j.limited);
            }
        },
        None => {
            assert(end.1.len() == 0);
        },
    }
}

/// A full sweep over a run whose first move starts from rest plans every
/// move of the run, and each once: the plan holds every move and has as many
/// entries as the run has moves.
pub proof fn lemma_full_sweep_complete(moves: Seq<MoveSequenceOperation>, facts: Seq<Junction>, flushed: nat)
    requires
        moves.len() <= usize::MAX,
        flushed <= moves.len(),
        facts.len() == moves.len(),
        first_move_limited(moves, facts, 0),
    ensures
        ({
            let end = sweep(moves, facts, LookaheadView::start(moves.len(), flushed, false));
            &&& end.1.len() == count_moves(moves, 0, moves.len() as int)
            &&& forall|i: int| 0 <= i < moves.len() && (#[trigger] moves[i]) is Move ==> plans(end.1, i)
        }),
{
    let st = LookaheadView::start(moves.len(), flushed, false);
    lemma_full_sweep(moves, facts, st);
    lemma_fills_behind(moves, 0, moves.len() as int);
    let end = sweep(moves, facts, st);
    assert forall|i: int| 0 <= i < moves.len() && (#[trigger] moves[i]) is Move implies plans(
        end.1,
        i,
    ) by {
        assert(move_before(moves, 0, moves.len() as int) is Some);
        if waits(end.0.delayed, i) {
            assert(false);
        }
    }
}

} // verus!
