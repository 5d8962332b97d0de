//! The queues between the tasks of the pipeline: how many items each
//! holds, and what a sender does when one is full.

use vstd::prelude::*;

verus! {

/// An edge of the pipeline.
#[derive(Debug, Clone, Copy, PartialEq, Eq, Structural)]
pub enum Queue {
    /// Raw lines, tailer to parser.
    Lines,
    /// Typed events, parser to engine.
    Events,
    /// Identity updates, identity watcher to engine.
    Identity,
    /// Advice, engine to fan-out.
    Advice,
    /// Snapshots, engine to fan-out.
    Snapshots,
    /// Debriefs, engine to fan-out.
    Debriefs,
    /// Store commands, engine to store writer.
    Commands,
}

/// What a sender does when the queue is full.
#[derive(Debug, Clone, Copy, PartialEq, Eq, Structural)]
pub enum Overflow {
    /// The sender waits for room.
    Block,
    /// The item is dropped: the next one is fresher.
    Drop,
}

impl Queue {
    /// Number of items the queue holds.
    pub open spec fn spec_capacity(self) -> usize {
        match self {
            Queue::Lines => 2048,
            Queue::Events => 1024,
            Queue::Identity => 16,
            Queue::Advice => 128,
            Queue::Snapshots => 128,
            Queue::Debriefs => 16,
            Queue::Commands => 512,
        }
    }

    /// What a sender does when the queue is full: snapshots and debriefs
    /// are dropped, everything else waits.
    pub open spec fn spec_overflow(self) -> Overflow {
        match self {
            Queue::Snapshots => Overflow::Drop,
            Queue::Debriefs => Overflow::Drop,
            _ => Overflow::Block,
        }
    }

    /// Number of items the queue holds.
    pub fn capacity(&self) -> (r: usize)
        ensures
            r == self.spec_capacity(),
    {
        match self {
            Queue::Lines => 2048,
            Queue::Events => 1024,
            Queue::Identity => 16,
            Queue::Advice => 128,
            Queue::Snapshots => 128,
            Queue::Debriefs => 16,
            Queue::Commands => 512,
        }
    }

    /// What a sender does when the queue is full.
    pub fn overflow(&self) -> (r: Overflow)
        ensures
            r == self.spec_overflow(),
    {
        match self {
            Queue::Snapshots => Overflow::Drop,
            Queue::Debriefs => Overflow::Drop,
            _ => Overflow::Block,
        }
    }
}

} // verus!
