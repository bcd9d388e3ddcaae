//! Accept/drain/stop protocol around in-flight request tracking.
//!
//! The controller moves through three phases, forward only:
//! accepting → draining → stopped. A shutdown signal starts the drain; while
//! draining, new work is rejected and the in-flight count may only fall. The
//! drain ends cleanly when in-flight reaches zero, or forcedly when the
//! deadline passes first — and the two outcomes stay distinguishable ever
//! after, so an operator can alert on a forced stop.
//!
//! The driver increments on entry and decrements on *every* exit path of a
//! request — failures and cancellations included — and polls at an interval
//! short against typical request duration. Time is a caller-supplied tick
//! count; the controller never reads a clock or sleeps.

use vstd::prelude::*;

verus! {

/// Where the controller stands in its accept → drain → stop life.
#[derive(Clone, Copy, Debug, PartialEq, Eq, Structural)]
pub enum Phase {
    /// New requests are admitted.
    Accepting,
    /// Shutdown was signalled: new requests are rejected, in-flight ones run
    /// on until done or until the drain deadline.
    Draining,
    /// The drain ended; downstream teardown may proceed.
    Stopped,
}

/// What one poll of a drain found.
#[derive(Clone, Copy, Debug, PartialEq, Eq, Structural)]
pub enum PollOutcome {
    /// No shutdown was signalled yet; nothing to drain.
    NotSignalled,
    /// Work is still in flight and the deadline has not passed.
    StillDraining,
    /// Every in-flight request finished before the deadline.
    StoppedClean,
    /// The deadline passed with work still in flight.
    StoppedForced,
}

/// In-flight counter, shutdown gate and drain clock of one process.
pub struct LifecycleController {
    phase: Phase,
    in_flight: u64,
    drain_deadline: u64,
    forced: bool,
}

impl LifecycleController {
    pub closed spec fn spec_phase(&self) -> Phase {
        self.phase
    }

    /// Requests admitted and not yet exited.
    pub closed spec fn spec_in_flight(&self) -> u64 {
        self.in_flight
    }

    /// Instant at which a drain gives up; meaningful once draining.
    pub closed spec fn spec_drain_deadline(&self) -> u64 {
        self.drain_deadline
    }

    /// Whether the stop was forced by the deadline; meaningful once stopped.
    pub closed spec fn spec_forced(&self) -> bool {
        self.forced
    }

    /// A fresh controller: accepting, with nothing in flight.
    pub fn new() -> (c: LifecycleController)
        ensures
            c.spec_phase() == Phase::Accepting,
            c.spec_in_flight() == 0,
    {
        LifecycleController { phase: Phase::Accepting, in_flight: 0, drain_deadline: 0, forced: false }
    }

    /// Admit one request, or reject it: admitted exactly while accepting.
    /// A rejection is the service-unavailable outcome and changes nothing.
    /// The driver pairs every admission with one `exit`, on every exit path.
    pub fn try_enter(&mut self) -> (admitted: bool)
        requires
            old(self).spec_in_flight() < u64::MAX,
        ensures
            admitted == (old(self).spec_phase() == Phase::Accepting),
            admitted ==> final(self).spec_in_flight() == old(self).spec_in_flight() + 1,
            !admitted ==> *final(self) == *old(self),
            final(self).spec_phase() == old(self).spec_phase(),
            final(self).spec_drain_deadline() == old(self).spec_drain_deadline(),
            final(self).spec_forced() == old(self).spec_forced(),
    {
        match self.phase {
            Phase::Accepting => {
                self.in_flight = self.in_flight + 1;
                true
            },
            _ => false,
        }
    }

    /// One admitted request left, on whatever path: done, failed or
    /// cancelled. The count falls by one and nothing else moves.
    pub fn exit(&mut self)
        requires
            old(self).spec_in_flight() > 0,
        ensures
            final(self).spec_in_flight() == old(self).spec_in_flight() - 1,
            final(self).spec_phase() == old(self).spec_phase(),
            final(self).spec_drain_deadline() == old(self).spec_drain_deadline(),
            final(self).spec_forced() == old(self).spec_forced(),
    {
        self.in_flight = self.in_flight - 1;
    }

    /// Start draining: from accepting, move to draining with the deadline
    /// `now + drain_timeout` (saturating). Signalled again later, it changes
    /// nothing — the first deadline stands.
    pub fn signal_shutdown(&mut self, now: u64, drain_timeout: u64)
        ensures
            old(self).spec_phase() == Phase::Accepting ==> final(self).spec_phase()
                == Phase::Draining && final(self).spec_drain_deadline() == now.saturating_add(
                drain_timeout,
            ) && final(self).spec_forced() == old(self).spec_forced(),
            old(self).spec_phase() != Phase::Accepting ==> *final(self) == *old(self),
            final(self).spec_in_flight() == old(self).spec_in_flight(),
    {
        match self.phase {
            Phase::Accepting => {
                self.phase = Phase::Draining;
                self.drain_deadline = now.saturating_add(drain_timeout);
            },
            _ => {},
        }
    }

    /// One look at the drain. While draining, stop cleanly the moment
    /// nothing is in flight; stop forcedly once `now` reaches the deadline
    /// with work still in flight (when both hold at the same poll, the clean
    /// stop wins); otherwise keep draining. Before the signal it reports
    /// that nothing was signalled; after the stop it keeps reporting how the
    /// stop happened.
    pub fn poll_drain(&mut self, now: u64) -> (o: PollOutcome)
        ensures
            final(self).spec_in_flight() == old(self).spec_in_flight(),
            final(self).spec_drain_deadline() == old(self).spec_drain_deadline(),
            old(self).spec_phase() == Phase::Accepting ==> o == PollOutcome::NotSignalled
                && *final(self) == *old(self),
            old(self).spec_phase() == Phase::Draining && old(self).spec_in_flight() == 0
                ==> o == PollOutcome::StoppedClean
                && final(self).spec_phase() == Phase::Stopped
                && !final(self).spec_forced(),
            old(self).spec_phase() == Phase::Draining && old(self).spec_in_flight() > 0
                && now >= old(self).spec_drain_deadline()
                ==> o == PollOutcome::StoppedForced
                && final(self).spec_phase() == Phase::Stopped
                && final(self).spec_forced(),
            old(self).spec_phase() == Phase::Draining && old(self).spec_in_flight() > 0
                && now < old(self).spec_drain_deadline()
                ==> o == PollOutcome::StillDraining && *final(self) == *old(self),
            old(self).spec_phase() == Phase::Stopped ==> *final(self) == *old(self)
                && o == (if old(self).spec_forced() {
                    PollOutcome::StoppedForced
                } else {
                    PollOutcome::StoppedClean
                }),
    {
        match self.phase {
            Phase::Accepting => PollOutcome::NotSignalled,
            Phase::Draining => {
                if self.in_flight == 0 {
                    self.phase = Phase::Stopped;
                    self.forced = false;
                    PollOutcome::StoppedClean
                } else if now >= self.drain_deadline {
                    self.phase = Phase::Stopped;
                    self.forced = true;
                    PollOutcome::StoppedForced
                } else {
                    PollOutcome::StillDraining
                }
            },
            Phase::Stopped => {
                if self.forced {
                    PollOutcome::StoppedForced
                } else {
                    PollOutcome::StoppedClean
                }
            },
        }
    }

    /// Current phase.
    pub fn phase(&self) -> (p: Phase)
        ensures
            p == self.spec_phase(),
    {
        self.phase
    }

    /// Requests admitted and not yet exited.
    pub fn in_flight(&self) -> (n: u64)
        ensures
            n == self.spec_in_flight(),
    {
        self.in_flight
    }
}

} // verus!
