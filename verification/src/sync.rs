//! Pairing of the planner's output with the commands that caused it.
use vstd::prelude::*;
use std::collections::VecDeque;

verus! {

/// The count of operations that an entry of the buffer takes up: the count
/// it was entered with, and one where that is nought.
pub open spec fn share(n: usize) -> nat {
    if n <= 1 {
        1
    } else {
        n as nat
    }
}

/// The count of operations that the entries take up together.
pub open spec fn capacity<C>(entries: Seq<(usize, C)>) -> nat
    decreases entries.len(),
{
    if entries.len() == 0 {
        0
    } else {
        capacity(entries.drop_last()) + share(entries.last().0)
    }
}

/// The entries once one more operation has been paired with the first: its
/// count is one less, and an entry whose count is used up is gone.
pub open spec fn advanced<C>(entries: Seq<(usize, C)>) -> Seq<(usize, C)> {
    if entries.len() == 0 {
        entries
    } else if entries[0].0 <= 1 {
        entries.drop_first()
    } else {
        entries.update(0, ((entries[0].0 - 1) as usize, entries[0].1))
    }
}

/// Commands in the order in which they were given to the planner, each with
/// the count of operations that it made. The operations leave the planner in
/// the same order, so each belongs to the command at the front.
pub struct CommandBuffer<C> {
    buffer: VecDeque<(usize, C)>,
}

impl<C> View for CommandBuffer<C> {
    type V = Seq<(usize, C)>;

    closed spec fn view(&self) -> Seq<(usize, C)> {
        self.buffer@
    }
}

impl<C> CommandBuffer<C> {
    pub fn new() -> (r: Self)
        ensures
            r@ == Seq::<(usize, C)>::empty(),
    {
        CommandBuffer { buffer: VecDeque::new() }
    }

    /// Enters a command that made `n` operations.
    pub fn push(&mut self, n: usize, command: C)
        ensures
            final(self)@ == old(self)@.push((n, command)),
    {
        self.buffer.push_back((n, command));
    }

    pub fn len(&self) -> (r: usize)
        ensures
            r == self@.len(),
    {
        self.buffer.len()
    }

    /// The command to which the next operation belongs.
    pub fn front(&self) -> (r: Option<&C>)
        ensures
            match r {
                Some(c) => self@.len() > 0 && *c == self@[0].1,
                None => self@.len() == 0,
            },
    {
        if self.buffer.len() > 0 {
            Some(&self.buffer[0].1)
        } else {
            None
        }
    }

    /// Counts one operation off the command at the front, and drops the
    /// command with its last one.
    pub fn advance(&mut self)
        ensures
            final(self)@ == advanced(old(self)@),
    {
        match self.buffer.pop_front() {
            Some((n, command)) => {
                if n > 1 {
                    self.buffer.push_front((n - 1, command));
                    assert(self@ =~= advanced(old(self)@));
                } else {
                    assert(self@ =~= advanced(old(self)@));
                }
            },
            None => {},
        }
    }
}

/// An entry adds its share to what the buffer takes up, which is no less
/// than the count it was entered with.
pub proof fn lemma_capacity_push<C>(entries: Seq<(usize, C)>, n: usize, command: C)
    ensures
        capacity(entries.push((n, command))) == capacity(entries) + share(n),
        share(n) >= n,
{
    assert(entries.push((n, command)).drop_last() =~= entries);
}

/// Each operation that is paired takes one from what the buffer takes up.
pub proof fn lemma_capacity_advanced<C>(entries: Seq<(usize, C)>)
    ensures
        entries.len() > 0 ==> capacity(advanced(entries)) + 1 == capacity(entries),
        entries.len() == 0 <==> capacity(entries) == 0,
    decreases entries.len(),
{
    if entries.len() > 0 {
        let front = entries.drop_last();
        lemma_capacity_advanced(front);
        if entries.len() == 1 {
            assert(front =~= Seq::<(usize, C)>::empty());
            if entries[0].0 <= 1 {
                assert(advanced(entries) =~= Seq::<(usize, C)>::empty());
            } else {
                assert(advanced(entries).drop_last() =~= Seq::<(usize, C)>::empty());
            }
        } else {
            assert(advanced(entries).drop_last() =~= advanced(front));
            assert(advanced(entries).last() == entries.last());
        }
    }
}

/// As long as the buffer takes up no fewer operations than the planner has
/// yet to give out, an operation that leaves the planner finds a command at
/// the front of the buffer, and the same holds after the two are paired.
pub proof fn lemma_paired<C>(entries: Seq<(usize, C)>, pending: nat)
    requires
        pending <= capacity(entries),
        pending > 0,
    ensures
        entries.len() > 0,
        pending - 1 <= capacity(advanced(entries)),
{
    lemma_capacity_advanced(entries);
}

} // verus!
