//! Hearing about state this window did not change.
//!
//! Every component announces a change that landed; not every writer does, so a
//! safety poll runs too. Either way the window re-reads: nothing about what changed
//! travels between processes.

use vstd::prelude::*;

verus! {

/// How long a wake waits before giving up and polling instead, in milliseconds.
pub const POLL_INTERVAL_MS: u32 = 5_000;

/// How long an announcement waits for its friends before the read starts, in
/// milliseconds.
pub const COALESCE_MS: u32 = 250;

/// What woke the watch.
#[derive(Clone, Copy, Debug, PartialEq, Eq, Structural)]
pub enum Wake {
    /// A component announced that it changed something.
    Broadcast,
    /// Nobody said anything; this is the safety poll.
    Poll,
}

/// What a wait that ended stands for: whether the signal exists, and whether it was
/// raised.
pub fn wake_for(listening: bool, signalled: bool) -> (r: Wake)
    ensures
        r == if listening && signalled {
            Wake::Broadcast
        } else {
            Wake::Poll
        },
{
    if listening && signalled {
        Wake::Broadcast
    } else {
        Wake::Poll
    }
}

/// Whether a wake should cost a read of the state. An announcement always does; the
/// poll, which repeats forever, stops while nobody can see the result.
pub fn should_read(wake: Wake, window_visible: bool) -> (r: bool)
    ensures
        r == (wake == Wake::Broadcast || window_visible),
{
    match wake {
        Wake::Broadcast => true,
        Wake::Poll => window_visible,
    }
}

/// Whether the window counts as on screen: one that has not been created yet does.
pub fn window_visible(created: bool, visible: bool, minimized: bool) -> (r: bool)
    ensures
        r == (!created || (visible && !minimized)),
{
    !created || (visible && !minimized)
}

/// Keeps external notifications down to one state read at a time.
///
/// A wake that arrives while a read is running is neither dropped nor run: it is
/// remembered, and one more read starts when the running one lands.
#[derive(Clone, Copy, Debug, PartialEq, Eq, Structural)]
pub struct ReadCoalescer {
    in_flight: bool,
    owed: bool,
}

impl Default for ReadCoalescer {
    fn default() -> (r: Self)
        ensures
            !r.reading(),
            !r.owes(),
            r.wf(),
    {
        ReadCoalescer { in_flight: false, owed: false }
    }
}

impl ReadCoalescer {
    /// Whether a read is running.
    pub closed spec fn reading(&self) -> bool {
        self.in_flight
    }

    /// Whether another read is owed when the running one lands.
    pub closed spec fn owes(&self) -> bool {
        self.owed
    }

    /// A read is owed only while one is running.
    pub open spec fn wf(&self) -> bool {
        self.owes() ==> self.reading()
    }

    /// Records a wake, reporting whether a read should start now.
    pub fn wake(&mut self) -> (r: bool)
        ensures
            r == !old(self).reading(),
            (final(self).reading(), final(self).owes()) == after_wakes(
                (old(self).reading(), old(self).owes()),
                1,
            ),
            final(self).wf(),
    {
        proof {
            reveal_with_fuel(after_wakes, 2);
        }
        if self.in_flight {
            self.owed = true;
            return false;
        }
        self.in_flight = true;
        true
    }

    /// Records a completed read, reporting whether another should start.
    pub fn finished(&mut self) -> (r: bool)
        ensures
            r == old(self).owes(),
            final(self).reading() == old(self).owes(),
            !final(self).owes(),
            final(self).wf(),
    {
        proof {
            reveal_with_fuel(after_wakes, 2);
        }
        self.in_flight = false;
        if self.owed {
            self.owed = false;
            return self.wake();
        }
        false
    }

    /// Whether a read is running right now.
    pub fn is_reading(self) -> (r: bool)
        ensures
            r == self.reading(),
    {
        self.in_flight
    }
}

/// Whether a read runs and whether one is owed, after some more wakes.
pub open spec fn after_wakes(reads: (bool, bool), wakes: nat) -> (bool, bool)
    decreases wakes,
{
    if wakes == 0 {
        reads
    } else {
        let before = after_wakes(reads, (wakes - 1) as nat);
        (true, before.0 || before.1)
    }
}

/// However many wakes arrive while a read runs, exactly one more read is owed, and
/// it is owed only where a wake arrived.
pub proof fn law_a_burst_becomes_one_more_read(wakes: nat)
    ensures
        after_wakes((true, false), wakes) == (true, wakes > 0),
    decreases wakes,
{
    if wakes > 0 {
        law_a_burst_becomes_one_more_read((wakes - 1) as nat);
    }
}

}
