use vstd::prelude::*;
use crate::client::client::{ClientView, Upkeep};

verus! {

/// The state after the upkeep of the connection at the time `now`, where the
/// heartbeat that it calls for is sent.
pub open spec fn kept_up(state: ClientView, now: u64) -> ClientView {
    match state.upkeep(now) {
        Upkeep::Nothing => state,
        Upkeep::Disconnection => state.disconnected(),
        Upkeep::Heartbeat => state.sent(now),
    }
}

/// The state after the upkeep at each of the first `upto` of the times
/// `pumps`, in their order.
pub open spec fn pumped(state: ClientView, pumps: Seq<u64>, upto: int) -> ClientView
    decreases upto,
{
    if upto <= 0 {
        state
    } else {
        kept_up(pumped(state, pumps, upto - 1), pumps[upto - 1])
    }
}

/// The number of heartbeats that the upkeep at the first `upto` of the times
/// `pumps` calls for.
pub open spec fn heartbeats(state: ClientView, pumps: Seq<u64>, upto: int) -> int
    decreases upto,
{
    if upto <= 0 {
        0
    } else {
        heartbeats(state, pumps, upto - 1) + (if pumped(state, pumps, upto - 1).upkeep(
            pumps[upto - 1],
        ) == Upkeep::Heartbeat {
            1int
        } else {
            0int
        })
    }
}

/// The end of the interval `n` of the length `interval` after the time
/// `sent`.
pub open spec fn beat(sent: u64, interval: u64, n: int) -> int {
    sent + n * interval
}

/// Whether `time` is among the times `pumps`.
pub open spec fn pumped_at(pumps: Seq<u64>, time: int) -> bool {
    exists|i: int| 0 <= i < pumps.len() && #[trigger] pumps[i] == time
}

/// Whether the times `pumps` go up, lie in the `count` intervals of the
/// length `interval` after the time `sent`, and hold the end of each of
/// those intervals.
pub open spec fn covers(pumps: Seq<u64>, sent: u64, interval: u64, count: int) -> bool {
    &&& forall|i: int, j: int| 0 <= i <= j < pumps.len() ==> pumps[i] <= pumps[j]
    &&& forall|i: int|
        0 <= i < pumps.len() ==> sent < (#[trigger] pumps[i]) <= sent + count * interval
    &&& forall|n: int| 1 <= n <= count ==> pumped_at(pumps, #[trigger] beat(sent, interval, n))
}

/// What holds while the upkeeps of a silence go on: the connection stands,
/// as many heartbeats went out as intervals have ended, the last of them at
/// the end of the last such interval, and no upkeep was later than the end
/// of the interval that runs.
pub open spec fn on_beat(
    state: ClientView,
    pumps: Seq<u64>,
    sent: u64,
    interval: u64,
    upto: int,
) -> bool {
    let now = pumped(state, pumps, upto);
    let beats = heartbeats(state, pumps, upto);
    &&& now.connection is Some
    &&& 0 <= beats
    &&& now.connection->0.liveness.heartbeat.duration == interval
    &&& now.connection->0.liveness.heartbeat.last == Some((sent + beats * interval) as u64)
    &&& now.connection->0.liveness.timeout == state.connection->0.liveness.timeout
    &&& forall|i: int| 0 <= i < upto ==> (#[trigger] pumps[i]) < sent + (beats + 1) * interval
}

/// In a silence of `count` heartbeat intervals after a packet went out at
/// the time `sent`, a client that looks after its connection at the end of
/// each interval, and as often as it likes in between, sends `count`
/// heartbeats, one at the end of each interval and none before. The silence
/// is shorter than the time after which the server is given up.
pub proof fn lemma_one_heartbeat_each_interval(
    state: ClientView,
    pumps: Seq<u64>,
    sent: u64,
    count: int,
)
    requires
        state.connection is Some,
        state.connection->0.liveness.heartbeat.last == Some(sent),
        state.connection->0.liveness.heartbeat.duration > 0,
        count >= 0,
        sent + count * state.connection->0.liveness.heartbeat.duration <= u64::MAX,
        covers(pumps, sent, state.connection->0.liveness.heartbeat.duration, count),
        forall|i: int|
            0 <= i < pumps.len() ==> !state.connection->0.liveness.timeout.rings(#[trigger] pumps[i]),
    ensures
        heartbeats(state, pumps, pumps.len() as int) == count,
        pumped(state, pumps, pumps.len() as int).connection is Some,
        pumped(state, pumps, pumps.len() as int).connection->0.liveness.heartbeat.last == Some(
            (sent + count * state.connection->0.liveness.heartbeat.duration) as u64,
        ),
{
    let interval = state.connection->0.liveness.heartbeat.duration;
    let size = pumps.len() as int;
    lemma_on_beat(state, pumps, sent, count, size);
    let beats = heartbeats(state, pumps, size);
    if beats < count {
        assert(pumped_at(pumps, beat(sent, interval, count)));
        let i = choose|i: int|
            0 <= i < pumps.len() && #[trigger] pumps[i] == sent + count * interval;
        assert(pumps[i] < sent + (beats + 1) * interval);
        assert((beats + 1) * interval <= count * interval) by (nonlinear_arith)
            requires
                beats + 1 <= count,
                interval > 0,
        ;
    }
}

/// The upkeeps of a silence keep the beat.
proof fn lemma_on_beat(state: ClientView, pumps: Seq<u64>, sent: u64, count: int, upto: int)
    requires
        state.connection is Some,
        state.connection->0.liveness.heartbeat.last == Some(sent),
        state.connection->0.liveness.heartbeat.duration > 0,
        count >= 0,
        sent + count * state.connection->0.liveness.heartbeat.duration <= u64::MAX,
        covers(pumps, sent, state.connection->0.liveness.heartbeat.duration, count),
        forall|i: int|
            0 <= i < pumps.len() ==> !state.connection->0.liveness.timeout.rings(#[trigger] pumps[i]),
        0 <= upto <= pumps.len(),
    ensures
        on_beat(state, pumps, sent, state.connection->0.liveness.heartbeat.duration, upto),
        heartbeats(state, pumps, upto) <= count,
    decreases upto,
{
    let interval = state.connection->0.liveness.heartbeat.duration;
    if upto <= 0 {
        assert(0 * interval == 0) by (nonlinear_arith);
    } else {
        lemma_on_beat(state, pumps, sent, count, upto - 1);
        let before = pumped(state, pumps, upto - 1);
        let beats = heartbeats(state, pumps, upto - 1);
        let now = pumps[upto - 1];
        let last = sent + beats * interval;
        assert(0 <= beats * interval <= count * interval) by (nonlinear_arith)
            requires
                0 <= beats <= count,
                interval > 0,
        ;
        assert((beats + 1) * interval == beats * interval + interval) by (nonlinear_arith);
        assert((beats + 2) * interval == beats * interval + 2 * interval) by (nonlinear_arith);
        assert(!before.connection->0.liveness.timeout.rings(now));
        if before.upkeep(now) == Upkeep::Heartbeat {
            assert(now >= last + interval);
            if beats >= count {
                assert(now <= sent + count * interval);
                assert(beats * interval >= count * interval) by (nonlinear_arith)
                    requires
                        beats >= count,
                        interval > 0,
                ;
            }
            assert(beats + 1 <= count);
            let due = sent + (beats + 1) * interval;
            assert(pumped_at(pumps, beat(sent, interval, beats + 1)));
            let at = choose|i: int| 0 <= i < pumps.len() && #[trigger] pumps[i] == due;
            if at < upto - 1 {
                assert(pumps[at] < sent + (beats + 1) * interval);
            }
            assert(pumps[upto - 1] <= pumps[at]);
            assert(now == due);
            assert forall|i: int| 0 <= i < upto implies (#[trigger] pumps[i]) < sent + (beats + 2)
                * interval by {
                assert(pumps[i] <= pumps[upto - 1]);
            }
        } else {
            assert(now < last + interval);
            assert forall|i: int| 0 <= i < upto implies (#[trigger] pumps[i]) < sent + (beats + 1)
                * interval by {
                assert(pumps[i] <= pumps[upto - 1]);
            }
        }
    }
}

} // verus!
