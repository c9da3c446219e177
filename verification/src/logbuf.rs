//! A bounded FIFO of simulation events. Any tick may append; on overflow
//! the oldest entry is evicted. The presentation layer renders the
//! entries; the buffer itself stores structured values.

use vstd::prelude::*;
use crate::MAX_LOGS;

verus! {

/// One human-relevant happening of a tick.
#[derive(Clone, Copy, PartialEq, Eq, Structural, Debug)]
pub enum LogEvent {
    /// An explorer stood on a resource cell and reported it.
    ResourceFound { x: usize, y: usize },
    /// The secondary miner paused, waiting for enough outstanding claims.
    MinerWaiting { id: usize },
    /// A miner acquired a claimed coordinate as its target.
    TargetClaimed { id: usize, x: usize, y: usize },
    /// A miner collected a resource; its inventory after the collection.
    ResourceCollected { id: usize, inventory: u32 },
    /// A miner emptied its full inventory at the base.
    InventoryDeposited { id: usize, amount: u32 },
}

/// The bounded event buffer, oldest first, at most `MAX_LOGS` entries.
pub struct LogBuffer {
    pub entries: Vec<LogEvent>,
}

impl View for LogBuffer {
    type V = Seq<LogEvent>;

    open spec fn view(&self) -> Seq<LogEvent> {
        self.entries@
    }
}

/// What appending `e` to buffer contents `s` yields: the oldest entry is
/// evicted when the buffer is full.
pub open spec fn logged(s: Seq<LogEvent>, e: LogEvent) -> Seq<LogEvent> {
    if s.len() < MAX_LOGS {
        s.push(e)
    } else {
        s.drop_first().push(e)
    }
}

impl LogBuffer {
    /// Never more entries than the capacity.
    pub open spec fn wf(self) -> bool {
        self@.len() <= MAX_LOGS
    }

    /// An empty buffer.
    pub fn new() -> (b: LogBuffer)
        ensures
            b@ == Seq::<LogEvent>::empty(),
            b.wf(),
    {
        LogBuffer { entries: Vec::new() }
    }

    /// Appends an event, evicting the oldest entry if the buffer is full.
    pub fn log_event(&mut self, e: LogEvent)
        requires
            old(self).wf(),
        ensures
            final(self).wf(),
            final(self)@ == logged(old(self)@, e),
    {
        self.entries.push(e);
        if self.entries.len() > MAX_LOGS {
            self.entries.remove(0);
            proof {
                assert(self@ =~= old(self)@.drop_first().push(e));
            }
        }
    }

    /// The number of buffered events.
    pub fn len(&self) -> (n: usize)
        ensures
            n == self@.len(),
    {
        self.entries.len()
    }

    /// The i-th buffered event, oldest first.
    pub fn get(&self, i: usize) -> (e: LogEvent)
        requires
            i < self@.len(),
        ensures
            e == self@[i as int],
    {
        self.entries[i]
    }
}

} // verus!
