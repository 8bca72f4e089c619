//! What a probe worker owns apart from its thread: the counter of completed
//! units of busy work, and the decision to stop after a poll of its signal
//! channel.

use vstd::prelude::*;

verus! {

/// The count of units that a probe has completed since the controller last
/// drained it. The probe only adds to it; the controller only drains it.
pub struct ProbeCounter {
    count: i64,
}

impl ProbeCounter {
    /// The counter's value.
    pub closed spec fn value(&self) -> int {
        self.count as int
    }

    pub closed spec fn wf(&self) -> bool {
        self.count >= 0
    }

    /// A counter at zero.
    pub fn new() -> (r: ProbeCounter)
        ensures
            r.wf(),
            r.value() == 0,
    {
        ProbeCounter { count: 0 }
    }

    /// The counter's value, without changing it.
    pub fn get(&self) -> (r: i64)
        ensures
            r == self.value(),
    {
        self.count
    }

    /// Records one completed unit of busy work. The count stops at
    /// `i64::MAX` rather than wrap.
    pub fn record_unit(&mut self)
        requires
            old(self).wf(),
        ensures
            final(self).wf(),
            final(self).value() == if old(self).value() < i64::MAX {
                old(self).value() + 1
            } else {
                old(self).value()
            },
    {
        if self.count < i64::MAX {
            self.count = self.count + 1;
        }
    }

    /// Reads the count and resets it to zero in one step, so that every unit
    /// recorded before the call is returned now and none is seen again.
    pub fn drain(&mut self) -> (r: i64)
        requires
            old(self).wf(),
        ensures
            final(self).wf(),
            r == old(self).value(),
            r >= 0,
            final(self).value() == 0,
    {
        let r = self.count;
        self.count = 0;
        r
    }
}

/// What a non-blocking poll of a probe's signal channel found.
#[derive(Clone, Copy, Debug, PartialEq, Eq, Structural)]
pub enum SignalPoll {
    /// A stop message was waiting.
    Stop,
    /// The controller's end of the channel is gone.
    Disconnected,
    /// Nothing was waiting.
    Empty,
}

/// Whether a probe goes on with another unit of work after this poll: only
/// when nothing was waiting. A closed channel stops it as a message does.
pub fn keeps_running(poll: SignalPoll) -> (r: bool)
    ensures
        r == (poll == SignalPoll::Empty),
{
    match poll {
        SignalPoll::Empty => true,
        SignalPoll::Stop | SignalPoll::Disconnected => false,
    }
}

} // verus!
