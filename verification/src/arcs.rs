//! Arcs: the plane in which they lie and the segments that stand for them.
use vstd::prelude::*;
use crate::kind_tracker::Kind;
use crate::operations::{with_move, OperationSequence, OperationView, PlanningMove};

verus! {

/// The sense in which an arc is travelled.
#[derive(Debug, Copy, Clone, Eq, PartialEq, Structural)]
pub enum ArcDirection {
    Clockwise,
    CounterClockwise,
}

/// The plane in which arcs lie.
#[derive(Debug, Copy, Clone, Eq, PartialEq, Structural)]
pub enum Plane {
    XY,
    XZ,
    YZ,
}

impl Default for Plane {
    fn default() -> (r: Self)
        ensures
            r == Plane::XY,
    {
        Plane::XY
    }
}

impl Plane {
    /// The two axes of the plane and the axis along which a helix climbs, as
    /// positions among X, Y, Z.
    pub open spec fn spec_axes(self) -> (usize, usize, usize) {
        match self {
            Plane::XY => (0, 1, 2),
            Plane::XZ => (0, 2, 1),
            Plane::YZ => (1, 2, 0),
        }
    }

    /// The letters of the two parameters that give the centre of an arc in
    /// the plane.
    pub open spec fn spec_offsets(self) -> (char, char) {
        match self {
            Plane::XY => ('I', 'J'),
            Plane::XZ => ('I', 'K'),
            Plane::YZ => ('J', 'K'),
        }
    }

    pub fn axes(self) -> (r: (usize, usize, usize))
        ensures
            r == self.spec_axes(),
    {
        match self {
            Plane::XY => (0, 1, 2),
            Plane::XZ => (0, 2, 1),
            Plane::YZ => (1, 2, 0),
        }
    }

    pub fn offsets(self) -> (r: (char, char))
        ensures
            r == self.spec_offsets(),
    {
        match self {
            Plane::XY => ('I', 'J'),
            Plane::XZ => ('I', 'K'),
            Plane::YZ => ('J', 'K'),
        }
    }
}

/// The stream after the moves `segments`, each under the label `kind`.
pub open spec fn with_moves(
    ops: Seq<OperationView>,
    segments: Seq<PlanningMove>,
    kind: Option<Kind>,
) -> Seq<OperationView>
    decreases segments.len(),
{
    if segments.len() == 0 {
        ops
    } else {
        with_move(with_moves(ops, segments.drop_last(), kind), segments.last().tagged(kind))
    }
}

/// What the planner keeps of arcs between commands.
#[derive(Debug)]
pub struct ArcState {
    plane: Plane,
}

impl Default for ArcState {
    fn default() -> (r: Self)
        ensures
            r.plane() == Plane::XY,
    {
        ArcState { plane: Plane::XY }
    }
}

impl ArcState {
    /// The plane in which the next arc lies.
    pub closed spec fn plane(&self) -> Plane {
        self.plane
    }

    pub fn set_plane(&mut self, plane: Plane)
        ensures
            final(self).plane() == plane,
    {
        self.plane = plane;
    }

    pub fn get_plane(&self) -> (r: Plane)
        ensures
            r == self.plane(),
    {
        self.plane
    }

    /// Adds the segments of an arc to the stream, each under the label
    /// `move_kind`, and returns their count. An arc that cannot be drawn has
    /// no segments.
    pub fn generate_arc(
        &self,
        op_sequence: &mut OperationSequence,
        move_kind: Option<Kind>,
        segments: &Vec<PlanningMove>,
    ) -> (n: usize)
        ensures
            n == segments@.len(),
            final(op_sequence)@ == with_moves(old(op_sequence)@, segments@, move_kind),
            old(op_sequence).wf() ==> final(op_sequence).wf(),
    {
        let mut i: usize = 0;
        assert(segments@.take(0) =~= Seq::<PlanningMove>::empty());
        while i < segments.len()
            invariant
                i <= segments@.len(),
                op_sequence@ == with_moves(old(op_sequence)@, segments@.take(i as int), move_kind),
                old(op_sequence).wf() ==> op_sequence.wf(),
            decreases segments@.len() - i,
        {
            let mut pm = segments[i];
            pm.kind = move_kind;
            proof {
                assert(segments@.take(i + 1).drop_last() =~= segments@.take(i as int));
                assert(segments@.take(i + 1).last() == segments@[i as int]);
                assert(pm == segments@[i as int].tagged(move_kind));
            }
            op_sequence.add_move(pm);
            i += 1;
        }
        assert(segments@.take(segments@.len() as int) =~= segments@);
        segments.len()
    }
}

} // verus!
