use vstd::prelude::*;

verus! {

/// A timer that rings once its duration has passed since it was last reset.
/// Time is the number of milliseconds on a clock that does not go back.
#[derive(PartialEq, Eq, Structural, Clone, Copy, Debug)]
pub struct Timer {
    pub duration: u64,
    pub last: Option<u64>,
}

impl Timer {
    /// Whether the timer rings at the time `now`: it was rung by hand, or
    /// its duration has passed since the last reset.
    pub open spec fn rings(self, now: u64) -> bool {
        match self.last {
            Some(last) => now >= last && now - last >= self.duration,
            None => true,
        }
    }

    /// A timer of the given duration, reset at the time `now`.
    pub fn new(duration: u64, now: u64) -> (timer: Timer)
        ensures
            timer == (Timer { duration, last: Some(now) }),
    {
        Timer { duration, last: Some(now) }
    }

    /// Starts the timer over at the time `now`.
    pub fn reset(&mut self, now: u64)
        ensures
            *final(self) == (Timer { duration: old(self).duration, last: Some(now) }),
    {
        self.last = Some(now);
    }

    /// Makes the timer ring until it is reset.
    pub fn ring_manual(&mut self)
        ensures
            *final(self) == (Timer { duration: old(self).duration, last: None }),
    {
        self.last = None;
    }

    /// Whether the timer rings at the time `now`.
    pub fn ringing(&self, now: u64) -> (rings: bool)
        ensures
            rings == self.rings(now),
    {
        match self.last {
            Some(last) => now >= last && now - last >= self.duration,
            None => true,
        }
    }
}

/// The timers that watch over a connection: one for the heartbeat that is
/// due when the host has been silent, one for giving up a peer that has been
/// silent.
#[derive(PartialEq, Eq, Structural, Clone, Copy, Debug)]
pub struct Liveness {
    pub heartbeat: Timer,
    pub timeout: Timer,
}

impl Liveness {
    /// The timers of a connection that begins at the time `now`.
    pub fn new(heartbeat_interval: u64, disconnection_timeout: u64, now: u64) -> (liveness: Liveness)
        ensures
            liveness == (Liveness {
                heartbeat: Timer { duration: heartbeat_interval, last: Some(now) },
                timeout: Timer { duration: disconnection_timeout, last: Some(now) },
            }),
    {
        Liveness {
            heartbeat: Timer::new(heartbeat_interval, now),
            timeout: Timer::new(disconnection_timeout, now),
        }
    }

    /// Takes note that the host has sent a packet: the heartbeat clock
    /// starts over.
    pub fn mark_sent(&mut self, now: u64)
        ensures
            final(self).heartbeat == (Timer { last: Some(now), ..old(self).heartbeat }),
            final(self).timeout == old(self).timeout,
    {
        self.heartbeat.reset(now);
    }

    /// Takes note that a packet of the peer has arrived: both clocks start
    /// over.
    pub fn mark_heard(&mut self, now: u64)
        ensures
            final(self).heartbeat == (Timer { last: Some(now), ..old(self).heartbeat }),
            final(self).timeout == (Timer { last: Some(now), ..old(self).timeout }),
    {
        self.heartbeat.reset(now);
        self.timeout.reset(now);
    }

    /// Whether a heartbeat is due at the time `now`.
    pub fn should_send_heartbeat(&self, now: u64) -> (due: bool)
        ensures
            due == self.heartbeat.rings(now),
    {
        self.heartbeat.ringing(now)
    }

    /// Whether the peer is given up at the time `now`.
    pub fn should_drop(&self, now: u64) -> (lost: bool)
        ensures
            lost == self.timeout.rings(now),
    {
        self.timeout.ringing(now)
    }
}

/// In a silence, a host that sends the heartbeat when it is due sends one in
/// each interval and no more: after a packet was sent at the time `sent`,
/// none is due before a whole interval has passed, and one is due from then
/// on.
pub proof fn lemma_one_heartbeat_per_interval(liveness: Liveness, sent: u64, now: u64)
    requires
        liveness.heartbeat.last == Some(sent),
        sent <= now,
    ensures
        liveness.heartbeat.rings(now) <==> now - sent >= liveness.heartbeat.duration,
{
}

} // verus!
