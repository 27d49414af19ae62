use vstd::prelude::*;

verus! {

/// The tick that lies `steps` ticks after `tick`, wrapping.
pub open spec fn tick_after(tick: u16, steps: int) -> u16 {
    ((tick as int + steps) % 65536) as u16
}

/// Keeps the client's tick: it starts at the tick that the server names in
/// the handshake, and goes on by one for each tick interval that passes.
/// Time is a number of milliseconds.
#[derive(PartialEq, Eq, Structural, Clone, Copy, Debug)]
pub struct TickManager {
    /// The length of a tick in milliseconds; with 0 the tick stands still.
    pub tick_interval: u64,
    /// The client's tick.
    pub client_tick: u16,
    /// The moment at which the client's tick began.
    pub last_tick_millis: u64,
}

impl TickManager {
    /// The number of whole ticks that have passed at the time `now`.
    pub open spec fn ticks_due(self, now: u64) -> int {
        if self.tick_interval == 0 || now < self.last_tick_millis {
            0
        } else {
            (now - self.last_tick_millis) / (self.tick_interval as int)
        }
    }

    /// The moment at which the tick of the time `now` began: the last tick's
    /// beginning, moved on by the whole intervals that have passed.
    pub open spec fn tick_start(self, now: u64) -> u64 {
        if self.tick_interval == 0 || now < self.last_tick_millis {
            self.last_tick_millis
        } else {
            (now - (now - self.last_tick_millis) % (self.tick_interval as int)) as u64
        }
    }

    /// The manager after its tick was brought up to the time `now`.
    pub open spec fn updated(self, now: u64) -> TickManager {
        TickManager {
            tick_interval: self.tick_interval,
            client_tick: tick_after(self.client_tick, self.ticks_due(now)),
            last_tick_millis: self.tick_start(now),
        }
    }

    /// A manager for ticks of `tick_interval` milliseconds, at tick 0.
    pub fn new(tick_interval: u64) -> (manager: TickManager)
        ensures
            manager == (TickManager { tick_interval, client_tick: 0, last_tick_millis: 0 }),
    {
        TickManager { tick_interval, client_tick: 0, last_tick_millis: 0 }
    }

    /// Starts the client's tick at the server's tick, at the time `now`.
    pub fn set_initial_tick(&mut self, server_tick: u16, now: u64)
        ensures
            *final(self) == (TickManager {
                client_tick: server_tick,
                last_tick_millis: now,
                ..*old(self)
            }),
    {
        self.client_tick = server_tick;
        self.last_tick_millis = now;
    }

    /// The client's tick.
    pub fn get_client_tick(&self) -> (tick: u16)
        ensures
            tick == self.client_tick,
    {
        self.client_tick
    }

    /// Brings the tick up to the time `now`, and says whether it moved. The
    /// tick goes on by the number of whole intervals that have passed, and
    /// never back.
    pub fn update_frame(&mut self, now: u64) -> (ticked: bool)
        ensures
            ticked == (old(self).ticks_due(now) > 0),
            *final(self) == old(self).updated(now),
            final(self).last_tick_millis == old(self).last_tick_millis + old(self).ticks_due(now)
                * old(self).tick_interval,
    {
        if self.tick_interval == 0 || now < self.last_tick_millis {
            return false;
        }
        let elapsed: u64 = now - self.last_tick_millis;
        let ticks: u64 = elapsed / self.tick_interval;
        let rest: u64 = elapsed % self.tick_interval;
        proof {
            assert(ticks * self.tick_interval + rest == elapsed) by (nonlinear_arith)
                requires
                    ticks == elapsed / self.tick_interval,
                    rest == elapsed % self.tick_interval,
                    self.tick_interval > 0,
            ;
        }
        let steps: u16 = (ticks % 65536) as u16;
        proof {
            assert((self.client_tick as int + ticks as int) % 65536 == (self.client_tick as int
                + steps as int) % 65536) by (nonlinear_arith)
                requires
                    steps as int == ticks as int % 65536,
            ;
        }
        self.client_tick = self.client_tick.wrapping_add(steps);
        self.last_tick_millis = now - rest;
        ticks > 0
    }

    /// How far the current tick has come at the time `now`, as the number of
    /// milliseconds since it began and the length of a tick. The first is
    /// less than the second once `update_frame` has run for `now`; their
    /// quotient is the fraction by which to interpolate.
    pub fn fraction_parts(&self, now: u64) -> (parts: (u64, u64))
        ensures
            parts.1 == self.tick_interval,
            parts.0 == (if now >= self.last_tick_millis {
                (now - self.last_tick_millis) as u64
            } else {
                0
            }),
            self.tick_interval > 0 && self.ticks_due(now) == 0 ==> parts.0 < parts.1,
    {
        let since: u64 = if now >= self.last_tick_millis {
            now - self.last_tick_millis
        } else {
            0
        };
        proof {
            if self.tick_interval > 0 && self.ticks_due(now) == 0 && now >= self.last_tick_millis {
                assert(since < self.tick_interval) by (nonlinear_arith)
                    requires
                        since as int / self.tick_interval as int == 0,
                        self.tick_interval > 0,
                ;
            }
        }
        (since, self.tick_interval)
    }
}

/// The tick of a moment begins a whole number of intervals after the last
/// tick began, and not after the moment.
pub proof fn lemma_tick_start(manager: TickManager, now: u64)
    ensures
        manager.tick_start(now) == manager.last_tick_millis + manager.ticks_due(now)
            * manager.tick_interval,
        now >= manager.last_tick_millis ==> manager.tick_start(now) <= now,
{
    if manager.tick_interval != 0 && now >= manager.last_tick_millis {
        let elapsed = now - manager.last_tick_millis;
        let interval = manager.tick_interval as int;
        assert((elapsed / interval) * interval + elapsed % interval == elapsed
            && 0 <= elapsed % interval <= elapsed) by (nonlinear_arith)
            requires
                interval > 0,
                elapsed >= 0,
        ;
    } else {
        assert(manager.ticks_due(now) * manager.tick_interval == 0) by (nonlinear_arith)
            requires
                manager.ticks_due(now) == 0,
        ;
    }
}

/// Ticks add up: going on by `a` ticks and then by `b` is going on by
/// `a + b`, also across the wrap.
pub proof fn lemma_tick_after_adds(tick: u16, a: int, b: int)
    requires
        a >= 0,
        b >= 0,
    ensures
        tick_after(tick_after(tick, a), b) == tick_after(tick, a + b),
{
}

} // verus!
