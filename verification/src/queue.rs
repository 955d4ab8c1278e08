//! The submission queue: where a frame leaves its dispatches for the host to
//! execute.

use vstd::prelude::*;
use crate::error::SimulationError;
use crate::sequencer::Dispatch;

verus! {

/// Mathematical content of a [`SubmissionQueue`].
pub struct QueueView {
    /// The dispatches not yet taken by the host, oldest first.
    pub pending: Seq<Dispatch>,
    /// The most dispatches that the queue holds at a time.
    pub capacity: nat,
}

impl QueueView {
    /// The queue holds no more than its capacity.
    pub open spec fn wf(self) -> bool {
        self.pending.len() <= self.capacity
    }

    /// Number of dispatches that the queue can still take.
    pub open spec fn room(self) -> nat {
        (self.capacity - self.pending.len()) as nat
    }

    /// The queue and the verdict after a batch is offered: the batch is taken
    /// whole, behind what is pending, or refused whole.
    pub open spec fn submit(self, batch: Seq<Dispatch>) -> (
        QueueView,
        Result<(), SimulationError>,
    ) {
        if batch.len() <= self.room() {
            (QueueView { pending: self.pending + batch, ..self }, Ok(()))
        } else {
            (
                self,
                Err(
                    SimulationError::RuntimeDispatchError {
                        needed: batch.len() as usize,
                        room: self.room() as usize,
                    },
                ),
            )
        }
    }
}

/// A bounded queue of dispatches. The engine appends the dispatches of a
/// frame, in order; the host takes them out and executes them.
#[derive(Debug)]
pub struct SubmissionQueue {
    pending: Vec<Dispatch>,
    capacity: usize,
}

impl View for SubmissionQueue {
    type V = QueueView;

    closed spec fn view(&self) -> QueueView {
        QueueView { pending: self.pending@, capacity: self.capacity as nat }
    }
}

impl SubmissionQueue {
    /// An empty queue that holds up to `capacity` dispatches.
    pub fn new(capacity: usize) -> (q: SubmissionQueue)
        ensures
            q@ == (QueueView { pending: Seq::empty(), capacity: capacity as nat }),
            q@.wf(),
    {
        SubmissionQueue { pending: Vec::new(), capacity }
    }

    /// Number of dispatches that wait for the host.
    pub fn len(&self) -> (n: usize)
        ensures
            n == self@.pending.len(),
    {
        self.pending.len()
    }

    /// Whether no dispatch waits for the host.
    pub fn is_empty(&self) -> (b: bool)
        ensures
            b == (self@.pending.len() == 0),
    {
        self.pending.len() == 0
    }

    /// The most dispatches that the queue holds at a time.
    pub fn capacity(&self) -> (n: usize)
        ensures
            n == self@.capacity,
    {
        self.capacity
    }

    /// Number of dispatches that the queue can still take.
    pub fn room(&self) -> (n: usize)
        requires
            self@.wf(),
        ensures
            n == self@.room(),
    {
        self.capacity - self.pending.len()
    }

    /// The dispatches that wait for the host, oldest first.
    pub fn pending(&self) -> (p: &Vec<Dispatch>)
        ensures
            p@ == self@.pending,
    {
        &self.pending
    }

    /// Offers a batch of dispatches. It is appended whole, in order, if the
    /// queue has room for all of it; otherwise the queue refuses it and stays
    /// as it was.
    pub fn submit(&mut self, batch: Vec<Dispatch>) -> (r: Result<(), SimulationError>)
        requires
            old(self)@.wf(),
        ensures
            final(self)@.wf(),
            (final(self)@, r) == old(self)@.submit(batch@),
    {
        let room = self.room();
        if batch.len() <= room {
            let mut batch = batch;
            self.pending.append(&mut batch);
            Ok(())
        } else {
            Err(SimulationError::RuntimeDispatchError { needed: batch.len(), room })
        }
    }

    /// Takes every waiting dispatch out of the queue, oldest first.
    pub fn drain(&mut self) -> (taken: Vec<Dispatch>)
        ensures
            taken@ == old(self)@.pending,
            final(self)@ == (QueueView { pending: Seq::empty(), ..old(self)@ }),
            final(self)@.wf(),
    {
        let mut taken: Vec<Dispatch> = Vec::new();
        core::mem::swap(&mut self.pending, &mut taken);
        taken
    }
}

} // verus!
