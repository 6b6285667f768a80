//! The decisions of the collection loop.  The loop itself (the timer, the
//! collector, the storage channel and the shutdown signal) runs outside the
//! library and reports each outcome here; the answer says whether to go on.
use vstd::prelude::*;

verus! {

/// What happened in one turn of the collection loop.
#[derive(Debug, Clone, Copy, PartialEq, Eq, Structural)]
pub enum LoopEvent {
    /// A batch was collected and handed to the storage writer.
    BatchStored,
    /// The collector failed; the failure is logged and the loop goes on.
    CollectionFailed,
    /// A shutdown signal arrived.
    ShutdownRequested,
}

/// What the loop does next.
#[derive(Debug, Clone, Copy, PartialEq, Eq, Structural)]
pub enum LoopAction {
    Continue,
    Stop,
}

/// The collection loop's count of stored batches and its optional limit.
#[derive(Debug)]
pub struct CollectionLoop {
    collected_cycles: u64,
    sample_limit: Option<u64>,
}

/// The count after an event: only a stored batch counts.
pub open spec fn cycles_after(cycles: u64, event: LoopEvent) -> u64 {
    match event {
        LoopEvent::BatchStored => (cycles + 1) as u64,
        _ => cycles,
    }
}

/// The loop stops on a shutdown signal, and after a stored batch once the
/// count has reached the limit; a failed collection never stops it.
pub open spec fn loop_action(cycles: u64, limit: Option<u64>, event: LoopEvent) -> LoopAction {
    match event {
        LoopEvent::ShutdownRequested => LoopAction::Stop,
        LoopEvent::CollectionFailed => LoopAction::Continue,
        LoopEvent::BatchStored => if limit matches Some(l) && cycles + 1 >= l {
            LoopAction::Stop
        } else {
            LoopAction::Continue
        },
    }
}

impl CollectionLoop {
    /// Batches stored so far.
    pub closed spec fn spec_cycles(&self) -> u64 {
        self.collected_cycles
    }

    /// The number of batches after which the loop stops, if any.
    pub closed spec fn spec_limit(&self) -> Option<u64> {
        self.sample_limit
    }

    /// A loop that has stored nothing yet.
    pub fn new(sample_limit: Option<u64>) -> (state: Self)
        ensures
            state.spec_cycles() == 0,
            state.spec_limit() == sample_limit,
    {
        CollectionLoop { collected_cycles: 0, sample_limit }
    }

    /// Batches stored so far.
    pub fn collected_cycles(&self) -> (cycles: u64)
        ensures
            cycles == self.spec_cycles(),
    {
        self.collected_cycles
    }

    /// Takes one outcome of the loop and says whether to go on (see
    /// `loop_action`).  The count of stored batches must not overflow.
    pub fn step(&mut self, event: LoopEvent) -> (action: LoopAction)
        requires
            event == LoopEvent::BatchStored ==> old(self).spec_cycles() < u64::MAX,
        ensures
            final(self).spec_cycles() == cycles_after(old(self).spec_cycles(), event),
            final(self).spec_limit() == old(self).spec_limit(),
            action == loop_action(old(self).spec_cycles(), old(self).spec_limit(), event),
    {
        match event {
            LoopEvent::ShutdownRequested => LoopAction::Stop,
            LoopEvent::CollectionFailed => LoopAction::Continue,
            LoopEvent::BatchStored => {
                self.collected_cycles = self.collected_cycles + 1;
                match self.sample_limit {
                    Some(limit) => if self.collected_cycles >= limit {
                        LoopAction::Stop
                    } else {
                        LoopAction::Continue
                    },
                    None => LoopAction::Continue,
                }
            },
        }
    }
}

/// The count after `k` stored batches from a fresh loop.
pub open spec fn cycles_after_batches(k: nat) -> u64
    decreases k,
{
    if k == 0 {
        0
    } else {
        cycles_after(cycles_after_batches((k - 1) as nat), LoopEvent::BatchStored)
    }
}

/// With a limit, a fresh loop that stores one batch after another stops at
/// exactly the batch that reaches the limit (the first one for a limit of
/// zero), never before; without a limit it never stops on a stored batch.
pub proof fn lemma_sample_limit_stops_at_the_limit(limit: Option<u64>, k: nat)
    requires
        1 <= k <= u64::MAX,
    ensures
        cycles_after_batches((k - 1) as nat) == k - 1,
        loop_action(cycles_after_batches((k - 1) as nat), limit, LoopEvent::BatchStored) == (
        if limit matches Some(l) && k >= l {
            LoopAction::Stop
        } else {
            LoopAction::Continue
        }),
    decreases k,
{
    if k > 1 {
        lemma_sample_limit_stops_at_the_limit(limit, (k - 1) as nat);
    }
}

} // verus!
