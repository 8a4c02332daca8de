use vstd::prelude::*;
use crate::slab::Token;

verus! {

/// The readiness bits a registration asks for, or an event carries.
/// Registrations are always edge-triggered, so no trigger mode is recorded.
#[derive(Clone, Copy, PartialEq, Eq, Structural, Debug)]
pub struct EventSet {
    pub readable: bool,
    pub writable: bool,
    pub hup: bool,
    pub error: bool,
}

impl EventSet {
    /// The empty interest set.
    pub fn none() -> (r: EventSet)
        ensures
            r == (EventSet { readable: false, writable: false, hup: false, error: false }),
    {
        EventSet { readable: false, writable: false, hup: false, error: false }
    }

    /// Interest in readability alone.
    pub fn readable() -> (r: EventSet)
        ensures
            r == (EventSet { readable: true, writable: false, hup: false, error: false }),
    {
        EventSet { readable: true, writable: false, hup: false, error: false }
    }

    /// Interest in writability alone.
    pub fn writable() -> (r: EventSet)
        ensures
            r == (EventSet { readable: false, writable: true, hup: false, error: false }),
    {
        EventSet { readable: false, writable: true, hup: false, error: false }
    }

    /// The same interests with hangup detection added.
    pub fn with_hup(self) -> (r: EventSet)
        ensures
            r == (EventSet { hup: true, ..self }),
    {
        EventSet { hup: true, ..self }
    }

    /// Whether the event carries hangup or error, the conditions under which
    /// a connection is torn down.
    pub open spec fn spec_closing(self) -> bool {
        self.hup || self.error
    }

    /// Whether the event carries hangup or error.
    pub fn is_closing(&self) -> (r: bool)
        ensures
            r == self.spec_closing(),
    {
        self.hup || self.error
    }
}

/// One command for the OS poller, recorded by the verified core and carried
/// out by the unverified driver that owns the real poller. Registrations are
/// edge-triggered.
#[derive(Clone, Copy, PartialEq, Eq, Structural, Debug)]
pub enum PollOp {
    /// Start polling the resource named by the token, with the given interests.
    Register { token: Token, interest: EventSet },
    /// Change the interests of an already polled resource.
    Reregister { token: Token, interest: EventSet },
    /// Stop polling the resource named by the token.
    Deregister { token: Token },
    /// Arm a one-shot timer that fires after `delay_ms` milliseconds and
    /// reports the timer token's integer.
    SetTimer { delay_ms: u64, timer: Token },
    /// Stop the event loop at the next tick boundary.
    Shutdown,
}

/// The reactor's model of what the OS poller currently holds: which I/O
/// tokens are registered and with what interests, which timer tokens are
/// armed, and whether the loop is still meant to run. The verified core keeps
/// this model in lockstep with the command log it hands to the driver.
pub struct PollModel {
    io: Vec<Option<EventSet>>,
    timers: Vec<bool>,
    running: bool,
}

impl PollModel {
    /// The interest the poller holds for an I/O token, if any.
    pub closed spec fn io_interest(&self, t: int) -> Option<EventSet> {
        if 0 <= t < self.io@.len() {
            self.io@[t]
        } else {
            None
        }
    }

    /// Whether the poller polls the resource named by `t`.
    pub open spec fn io_registered(&self, t: int) -> bool {
        self.io_interest(t) is Some
    }

    /// Whether the timer token `t` is armed.
    pub closed spec fn timer_set(&self, t: int) -> bool {
        0 <= t < self.timers@.len() && self.timers@[t]
    }

    /// Whether the loop is still meant to run.
    pub closed spec fn running(&self) -> bool {
        self.running
    }

    /// How many I/O tokens the model covers.
    pub closed spec fn io_cap(&self) -> int {
        self.io@.len() as int
    }

    /// How many timer tokens the model covers.
    pub closed spec fn timer_cap(&self) -> int {
        self.timers@.len() as int
    }

    /// A model of an idle poller: nothing registered, nothing armed, running.
    pub fn new(io_cap: usize, timer_cap: usize) -> (m: PollModel)
        ensures
            m.io_cap() == io_cap,
            m.timer_cap() == timer_cap,
            forall|t: int| !m.io_registered(t),
            forall|t: int| !m.timer_set(t),
            m.running(),
    {
        let mut io: Vec<Option<EventSet>> = Vec::new();
        let mut i: usize = 0;
        while i < io_cap
            invariant
                i <= io_cap,
                io@.len() == i,
                forall|j: int| 0 <= j < i ==> io@[j] is None,
            decreases io_cap - i,
        {
            io.push(None);
            i = i + 1;
        }
        let mut timers: Vec<bool> = Vec::new();
        let mut j: usize = 0;
        while j < timer_cap
            invariant
                j <= timer_cap,
                timers@.len() == j,
                forall|k: int| 0 <= k < j ==> !timers@[k],
            decreases timer_cap - j,
        {
            timers.push(false);
            j = j + 1;
        }
        PollModel { io, timers, running: true }
    }

    /// Records that `t` is now polled with interest `es`; used both for fresh
    /// registrations and for interest changes.
    pub fn set_io(&mut self, t: Token, es: EventSet)
        requires
            t.0 < old(self).io_cap(),
        ensures
            final(self).io_interest(t.0 as int) == Some(es),
            forall|u: int| u != t.0 ==> final(self).io_interest(u) == old(self).io_interest(u),
            final(self).io_cap() == old(self).io_cap(),
            final(self).timer_cap() == old(self).timer_cap(),
            forall|u: int| final(self).timer_set(u) == old(self).timer_set(u),
            final(self).running() == old(self).running(),
    {
        let slot = vstd::std_specs::vec::vec_index_mut(&mut self.io, t.0);
        *slot = Some(es);
    }

    /// Records that `t` is no longer polled.
    pub fn clear_io(&mut self, t: Token)
        requires
            t.0 < old(self).io_cap(),
        ensures
            final(self).io_interest(t.0 as int) is None,
            forall|u: int| u != t.0 ==> final(self).io_interest(u) == old(self).io_interest(u),
            final(self).io_cap() == old(self).io_cap(),
            final(self).timer_cap() == old(self).timer_cap(),
            forall|u: int| final(self).timer_set(u) == old(self).timer_set(u),
            final(self).running() == old(self).running(),
    {
        let slot = vstd::std_specs::vec::vec_index_mut(&mut self.io, t.0);
        *slot = None;
    }

    /// Records that the timer token `t` is armed.
    pub fn set_timer(&mut self, t: Token)
        requires
            t.0 < old(self).timer_cap(),
        ensures
            final(self).timer_set(t.0 as int),
            forall|u: int| u != t.0 ==> final(self).timer_set(u) == old(self).timer_set(u),
            final(self).io_cap() == old(self).io_cap(),
            final(self).timer_cap() == old(self).timer_cap(),
            forall|u: int| final(self).io_interest(u) == old(self).io_interest(u),
            final(self).running() == old(self).running(),
    {
        let slot = vstd::std_specs::vec::vec_index_mut(&mut self.timers, t.0);
        *slot = true;
    }

    /// Records that the timer token `t` is no longer armed.
    pub fn clear_timer(&mut self, t: Token)
        requires
            t.0 < old(self).timer_cap(),
        ensures
            !final(self).timer_set(t.0 as int),
            forall|u: int| u != t.0 ==> final(self).timer_set(u) == old(self).timer_set(u),
            final(self).io_cap() == old(self).io_cap(),
            final(self).timer_cap() == old(self).timer_cap(),
            forall|u: int| final(self).io_interest(u) == old(self).io_interest(u),
            final(self).running() == old(self).running(),
    {
        let slot = vstd::std_specs::vec::vec_index_mut(&mut self.timers, t.0);
        *slot = false;
    }

    /// Records that the loop must stop; stopping twice changes nothing.
    pub fn stop(&mut self)
        ensures
            !final(self).running(),
            final(self).io_cap() == old(self).io_cap(),
            final(self).timer_cap() == old(self).timer_cap(),
            forall|u: int| final(self).io_interest(u) == old(self).io_interest(u),
            forall|u: int| final(self).timer_set(u) == old(self).timer_set(u),
    {
        self.running = false;
    }

    /// Whether the loop is still meant to run.
    pub fn is_running(&self) -> (r: bool)
        ensures
            r == self.running(),
    {
        self.running
    }

    /// Whether the poller polls the resource named by `t`.
    pub fn is_io_registered(&self, t: Token) -> (r: bool)
        ensures
            r == self.io_registered(t.0 as int),
    {
        t.0 < self.io.len() && self.io[t.0].is_some()
    }

    /// Whether the timer token `t` is armed.
    pub fn is_timer_set(&self, t: Token) -> (r: bool)
        ensures
            r == self.timer_set(t.0 as int),
    {
        t.0 < self.timers.len() && self.timers[t.0]
    }
}

} // verus!
