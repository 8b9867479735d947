//! Retraction by the firmware: the two states and the moves that lead from
//! one to the other.
use vstd::prelude::*;
use crate::kind_tracker::{kind_in, labels_with, KindTracker};
use crate::operations::{with_move, OperationSequence, OperationView, PlanningMove};

verus! {

/// Whether the filament is drawn back.
#[derive(Debug, Clone, Copy, PartialEq, Eq, Structural)]
pub enum FirmwareRetractionState {
    Unretracted,
    Retracted,
}

impl Default for FirmwareRetractionState {
    fn default() -> (r: Self)
        ensures
            r == FirmwareRetractionState::Unretracted,
    {
        FirmwareRetractionState::Unretracted
    }
}

/// The labels, the stream and the count of moves once the move `m`, if
/// there is one, has been added under `label`.
pub open spec fn with_labelled(
    labels: Seq<Seq<char>>,
    ops: Seq<OperationView>,
    n: nat,
    m: Option<PlanningMove>,
    label: Seq<char>,
) -> (Seq<Seq<char>>, Seq<OperationView>, nat) {
    match m {
        Some(m) => {
            let after = labels_with(labels, label);
            (after, with_move(ops, m.tagged(Some(kind_in(after, label)))), n + 1)
        },
        None => (labels, ops, n),
    }
}

/// The labels, the stream and the count of moves after the move along the
/// extruder axis and then the hop, each if there is one.
pub open spec fn with_pair(
    labels: Seq<Seq<char>>,
    ops: Seq<OperationView>,
    length: Option<PlanningMove>,
    length_label: Seq<char>,
    hop: Option<PlanningMove>,
    hop_label: Seq<char>,
) -> (Seq<Seq<char>>, Seq<OperationView>, nat) {
    let first = with_labelled(labels, ops, 0, length, length_label);
    with_labelled(first.0, first.1, first.2, hop, hop_label)
}

fn add_labelled(
    kind_tracker: &mut KindTracker,
    op_sequence: &mut OperationSequence,
    n: usize,
    m: Option<PlanningMove>,
    label: &str,
) -> (r: usize)
    requires
        old(kind_tracker).wf(),
        n < 2,
    ensures
        final(kind_tracker).wf(),
        final(kind_tracker).current() == old(kind_tracker).current(),
        (final(kind_tracker).labels(), final(op_sequence)@, r as nat) == with_labelled(
            old(kind_tracker).labels(),
            old(op_sequence)@,
            n as nat,
            m,
            label@,
        ),
        old(op_sequence).wf() ==> final(op_sequence).wf(),
{
    match m {
        Some(m) => {
            let mut pm = m;
            pm.kind = Some(kind_tracker.get_kind(label));
            op_sequence.add_move(pm);
            n + 1
        },
        None => n,
    }
}

impl FirmwareRetractionState {
    /// Draws the filament back, if it is not drawn back yet: a move along
    /// the extruder axis where the retraction has a length, then a hop
    /// where it has a lift. `length` and `hop` are those moves. Returns the
    /// count of moves added to the stream.
    pub fn retract(
        &mut self,
        kind_tracker: &mut KindTracker,
        op_sequence: &mut OperationSequence,
        length: Option<PlanningMove>,
        hop: Option<PlanningMove>,
    ) -> (n: usize)
        requires
            old(kind_tracker).wf(),
        ensures
            final(kind_tracker).wf(),
            final(kind_tracker).current() == old(kind_tracker).current(),
            *final(self) == FirmwareRetractionState::Retracted,
            old(op_sequence).wf() ==> final(op_sequence).wf(),
            *old(self) == FirmwareRetractionState::Retracted ==> n == 0 && final(kind_tracker).labels() == old(kind_tracker).labels() && final(op_sequence)@ == old(op_sequence)@,
            *old(self) == FirmwareRetractionState::Unretracted ==> (
                final(kind_tracker).labels(),
                final(op_sequence)@,
                n as nat,
            ) == with_pair(
                old(kind_tracker).labels(),
                old(op_sequence)@,
                length,
                "Firmware retract"@,
                hop,
                "Firmware retract Z hop"@,
            ),
    {
        let mut n: usize = 0;
        if let FirmwareRetractionState::Unretracted = self {
            n = add_labelled(kind_tracker, op_sequence, n, length, "Firmware retract");
            n = add_labelled(kind_tracker, op_sequence, n, hop, "Firmware retract Z hop");
            *self = FirmwareRetractionState::Retracted;
        }
        n
    }

    /// Lets the filament forward again, if it is drawn back: the reverse of
    /// `retract`, under labels of its own.
    pub fn unretract(
        &mut self,
        kind_tracker: &mut KindTracker,
        op_sequence: &mut OperationSequence,
        length: Option<PlanningMove>,
        hop: Option<PlanningMove>,
    ) -> (n: usize)
        requires
            old(kind_tracker).wf(),
        ensures
            final(kind_tracker).wf(),
            final(kind_tracker).current() == old(kind_tracker).current(),
            *final(self) == FirmwareRetractionState::Unretracted,
            old(op_sequence).wf() ==> final(op_sequence).wf(),
            *old(self) == FirmwareRetractionState::Unretracted ==> n == 0 && final(kind_tracker).labels() == old(kind_tracker).labels() && final(op_sequence)@ == old(op_sequence)@,
            *old(self) == FirmwareRetractionState::Retracted ==> (
                final(kind_tracker).labels(),
                final(op_sequence)@,
                n as nat,
            ) == with_pair(
                old(kind_tracker).labels(),
                old(op_sequence)@,
                length,
                "Firmware unretract"@,
                hop,
                "Firmware unretract Z hop"@,
            ),
    {
        let mut n: usize = 0;
        if let FirmwareRetractionState::Retracted = self {
            n = add_labelled(kind_tracker, op_sequence, n, length, "Firmware unretract");
            n = add_labelled(kind_tracker, op_sequence, n, hop, "Firmware unretract Z hop");
            *self = FirmwareRetractionState::Unretracted;
        }
        n
    }
}

} // verus!
