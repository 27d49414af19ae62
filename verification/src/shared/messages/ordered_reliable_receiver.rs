use vstd::prelude::*;
use crate::client::tick_manager::tick_after;
use crate::shared::message_channel::{ChannelReader, ChannelReceiver};
use crate::shared::messages::framing::{read_tagged, tagged_batch};
use crate::shared::messages::unordered_unreliable_receiver::drain;
use crate::shared::types::MessageId;
use crate::shared::wrapping::{wrapping_diff, wrapping_distance};
use crate::wire::bit_reader::BitReader;
use crate::wire::error::SerdeErr;
use crate::wire::serde::Serde;
use std::collections::VecDeque;

verus! {

/// The position of the first of the first `upto` entries of `waiting` that
/// has the identifier `id`.
pub open spec fn first_at<P>(waiting: Seq<(MessageId, P)>, id: MessageId, upto: int) -> Option<int>
    decreases upto,
{
    if upto <= 0 {
        None
    } else {
        match first_at(waiting, id, upto - 1) {
            Some(at) => Some(at),
            None => if waiting[upto - 1].0 == id {
                Some(upto - 1)
            } else {
                None
            },
        }
    }
}

/// What is found is inside the list and has the identifier.
pub proof fn lemma_first_at<P>(waiting: Seq<(MessageId, P)>, id: MessageId, upto: int)
    requires
        upto <= waiting.len(),
    ensures
        match first_at(waiting, id, upto) {
            Some(at) => 0 <= at < upto && waiting[at].0 == id,
            None => forall|i: int| 0 <= i < upto ==> (#[trigger] waiting[i]).0 != id,
        },
    decreases upto,
{
    if upto > 0 {
        lemma_first_at(waiting, id, upto - 1);
    }
}

/// What a reorder buffer holds: the identifier that is due next, and the
/// items that have come before their turn, with their identifiers.
pub struct ReorderView<P> {
    pub next: MessageId,
    pub waiting: Seq<(MessageId, P)>,
}

impl<P> ReorderView<P> {
    /// Whether an item with the identifier `id` is new: its turn has not
    /// passed, and it does not wait already. Identifiers wrap.
    pub open spec fn is_fresh(self, id: MessageId) -> bool {
        wrapping_distance(id, self.next) >= 0 && first_at(
            self.waiting,
            id,
            self.waiting.len() as int,
        ) is None
    }

    /// The buffer after every item whose turn has come was released, and the
    /// items released, in the order of their identifiers.
    pub open spec fn released(self) -> (ReorderView<P>, Seq<P>)
        decreases self.waiting.len(),
    {
        match first_at(self.waiting, self.next, self.waiting.len() as int) {
            Some(at) => {
                proof {
                    lemma_first_at(self.waiting, self.next, self.waiting.len() as int);
                }
                let rest = (ReorderView {
                    next: tick_after(self.next, 1),
                    waiting: self.waiting.remove(at),
                }).released();
                (rest.0, seq![self.waiting[at].1] + rest.1)
            },
            None => (self, Seq::empty()),
        }
    }

    /// The buffer after an item has arrived, and the items that its arrival
    /// releases: a new item joins those that wait, and then every item
    /// whose turn has come is released; an item that is not new is dropped.
    pub open spec fn accepted(self, id: MessageId, item: P) -> (ReorderView<P>, Seq<P>) {
        if self.is_fresh(id) {
            (ReorderView { next: self.next, waiting: self.waiting.push((id, item)) }).released()
        } else {
            (self, Seq::empty())
        }
    }
}

/// Brings items that arrive in any order, and more than once, into the order
/// of their identifiers: each is released once, when its turn has come.
pub struct Reorder<P> {
    next: MessageId,
    waiting: Vec<(MessageId, P)>,
}

impl<P> View for Reorder<P> {
    type V = ReorderView<P>;

    closed spec fn view(&self) -> ReorderView<P> {
        ReorderView { next: self.next, waiting: self.waiting@ }
    }
}

impl<P> Reorder<P> {
    /// A buffer that waits for the identifier 0.
    pub fn new() -> (buffer: Self)
        ensures
            buffer@ == (ReorderView { next: 0, waiting: Seq::<(MessageId, P)>::empty() }),
    {
        Reorder { next: 0, waiting: Vec::new() }
    }

    /// The position of the first item that waits under the identifier `id`.
    fn position(&self, id: MessageId) -> (found: Option<usize>)
        ensures
            match found {
                Some(at) => first_at(self.waiting@, id, self.waiting@.len() as int) == Some(
                    at as int,
                ) && at < self.waiting@.len(),
                None => first_at(self.waiting@, id, self.waiting@.len() as int) is None,
            },
    {
        let mut i: usize = 0;
        while i < self.waiting.len()
            invariant
                i <= self.waiting@.len(),
                first_at(self.waiting@, id, i as int) is None,
            decreases self.waiting@.len() - i,
        {
            if self.waiting[i].0 == id {
                proof {
                    lemma_first_at_stays(
                        self.waiting@,
                        id,
                        i as int + 1,
                        self.waiting@.len() as int,
                    );
                }
                return Some(i);
            }
            i += 1;
        }
        None
    }

    /// Takes in an item that has arrived under the identifier `id`, and
    /// gives the items that this releases, in order; or nothing where the
    /// item is not new.
    pub fn accept(&mut self, id: MessageId, item: P) -> (released: Option<Vec<P>>)
        ensures
            match released {
                Some(run) => old(self)@.is_fresh(id) && run@ == old(self)@.accepted(id, item).1,
                None => !old(self)@.is_fresh(id),
            },
            final(self)@ == old(self)@.accepted(id, item).0,
    {
        if wrapping_diff(id, self.next) < 0 || self.position(id).is_some() {
            return None;
        }
        self.waiting.push((id, item));
        let ghost start = self@;
        let mut run: Vec<P> = Vec::new();
        assert(run@ + start.released().1 =~= start.released().1);
        loop
            invariant
                old(self)@.is_fresh(id),
                start == (ReorderView {
                    next: old(self)@.next,
                    waiting: old(self)@.waiting.push((id, item)),
                }),
                self@.released().0 == start.released().0,
                run@ + self@.released().1 == start.released().1,
            decreases self.waiting@.len(),
        {
            match self.position(self.next) {
                Some(at) => {
                    let ghost before = self@;
                    let ghost taken = run@;
                    let (_, item) = self.waiting.remove(at);
                    self.next = self.next.wrapping_add(1);
                    run.push(item);
                    proof {
                        assert(before.released().1 == seq![before.waiting[at as int].1]
                            + self@.released().1);
                        assert(run@ + self@.released().1 =~= taken + before.released().1);
                    }
                },
                None => {
                    assert(run@ + Seq::<P>::empty() =~= run@);
                    return Some(run);
                },
            }
        }
    }

    /// The identifier that is due next.
    pub fn next_expected(&self) -> (next: MessageId)
        ensures
            next == self@.next,
    {
        self.next
    }
}

/// Once an identifier was found among the first entries, it is found at the
/// same place among more of them.
pub proof fn lemma_first_at_stays<P>(waiting: Seq<(MessageId, P)>, id: MessageId, from: int, upto: int)
    requires
        0 <= from <= upto,
        first_at(waiting, id, from) is Some,
    ensures
        first_at(waiting, id, upto) == first_at(waiting, id, from),
    decreases upto - from,
{
    if from < upto {
        lemma_first_at_stays(waiting, id, from, upto - 1);
    }
}

/// What an ordered receiver holds: its reorder buffer, and the messages
/// that are ready for the application.
pub struct OrderedView<P> {
    pub reorder: ReorderView<P>,
    pub ready: Seq<P>,
}

impl<P> OrderedView<P> {
    /// The state after a message has arrived: the messages that its arrival
    /// releases are ready, in the order of their identifiers.
    pub open spec fn buffered(self, id: MessageId, message: P) -> OrderedView<P> {
        OrderedView {
            reorder: self.reorder.accepted(id, message).0,
            ready: self.ready + self.reorder.accepted(id, message).1,
        }
    }

    /// The state after the first `upto` messages of `batch` have arrived.
    pub open spec fn buffered_all(self, batch: Seq<(MessageId, P)>, upto: int) -> OrderedView<P>
        decreases upto,
    {
        if upto <= 0 {
            self
        } else {
            self.buffered_all(batch, upto - 1).buffered(batch[upto - 1].0, batch[upto - 1].1)
        }
    }
}

/// Hands on the messages of a channel in the order in which they were sent,
/// each once: a message that arrives before its turn waits until all before
/// it have arrived.
pub struct OrderedReliableReceiver<P> {
    reorder: Reorder<P>,
    incoming_messages: VecDeque<P>,
}

impl<P> View for OrderedReliableReceiver<P> {
    type V = OrderedView<P>;

    closed spec fn view(&self) -> OrderedView<P> {
        OrderedView { reorder: self.reorder@, ready: self.incoming_messages@ }
    }
}

impl<P> OrderedReliableReceiver<P> {
    /// A receiver that waits for the message 0.
    pub fn new() -> (receiver: Self)
        ensures
            receiver@ == (OrderedView {
                reorder: ReorderView { next: 0, waiting: Seq::<(MessageId, P)>::empty() },
                ready: Seq::<P>::empty(),
            }),
    {
        OrderedReliableReceiver { reorder: Reorder::new(), incoming_messages: VecDeque::new() }
    }

    /// Takes in a message that has arrived.
    pub fn buffer_message(&mut self, message_id: MessageId, message: P)
        ensures
            final(self)@ == old(self)@.buffered(message_id, message),
    {
        match self.reorder.accept(message_id, message) {
            Some(run) => {
                let ghost before = self.incoming_messages@;
                let mut run = run;
                let mut i: usize = 0;
                let size = run.len();
                let ghost all = run@;
                assert(before + all.subrange(0, 0) =~= before);
                assert(run@ =~= all.subrange(0, all.len() as int));
                while i < size
                    invariant
                        i <= size,
                        size == all.len(),
                        run@ == all.subrange(i as int, size as int),
                        self.incoming_messages@ == before + all.subrange(0, i as int),
                        self.reorder@ == old(self).reorder@.accepted(message_id, message).0,
                    decreases size - i,
                {
                    let item = run.remove(0);
                    self.incoming_messages.push_back(item);
                    i += 1;
                    assert(run@ =~= all.subrange(i as int, size as int));
                    assert(self.incoming_messages@ =~= before + all.subrange(0, i as int));
                }
                assert(all.subrange(0, size as int) =~= all);
            },
            None => {
                assert(self.incoming_messages@ + Seq::<P>::empty() =~= self.incoming_messages@);
            },
        }
    }
}

impl<P: Send + Sync> ChannelReceiver<P> for OrderedReliableReceiver<P> {
    /// Reads the messages of a packet with their identifiers, and takes in
    /// each. The reading succeeds where the list of messages is whole, and
    /// then leaves the reader behind the list. Where the list breaks off,
    /// the messages before that are taken in.
    fn read_messages<C: ChannelReader<P>>(&mut self, channel_reader: &C, reader: &mut BitReader) -> (read:
        Result<(), SerdeErr>)
        ensures
            final(self)@ == old(self)@.buffered_all(
                tagged_batch(channel_reader, old(reader)@).items,
                tagged_batch(channel_reader, old(reader)@).items.len() as int,
            ),
            read is Ok <==> tagged_batch(channel_reader, old(reader)@).used is Some,
            read is Ok ==> final(reader)@ == old(reader)@.skip(
                tagged_batch(channel_reader, old(reader)@).used.unwrap(),
            ),
    {
        let taken = read_tagged(channel_reader, reader);
        let mut batch = taken.0;
        let ghost all = batch@;
        let ghost mut done: int = 0;
        assert(batch@ =~= all.skip(0));
        while batch.len() > 0
            invariant
                0 <= done <= all.len(),
                batch@ == all.skip(done),
                self@ == old(self)@.buffered_all(all, done),
            decreases batch@.len(),
        {
            match batch.pop_front() {
                Some((message_id, message)) => {
                    self.buffer_message(message_id, message);
                    proof {
                        done = done + 1;
                        assert(batch@ =~= all.skip(done));
                    }
                },
                None => {},
            }
        }
        if taken.1 {
            Ok(())
        } else {
            Err(SerdeErr)
        }
    }

    /// Gives the messages that are ready, in the order of their identifiers.
    fn receive_messages(&mut self) -> (messages: Vec<P>)
        ensures
            messages@ == old(self)@.ready,
            final(self)@ == (OrderedView { reorder: old(self)@.reorder, ready: Seq::<P>::empty() }),
    {
        drain(&mut self.incoming_messages)
    }
}

/// Items are released without a gap, beginning with the one that was due:
/// the item released at position `at` waited under the identifier that lies
/// `at` after the one that was due, and afterwards the identifier is due
/// that follows the last one released.
pub proof fn lemma_released_in_turn<P>(buffer: ReorderView<P>, at: int)
    requires
        0 <= at < buffer.released().1.len(),
    ensures
        buffer.released().0.next == tick_after(buffer.next, buffer.released().1.len() as int),
        exists|i: int|
            0 <= i < buffer.waiting.len() && (#[trigger] buffer.waiting[i]) == (
                tick_after(buffer.next, at),
                buffer.released().1[at],
            ),
    decreases buffer.waiting.len(),
{
    lemma_first_at(buffer.waiting, buffer.next, buffer.waiting.len() as int);
    let found = first_at(buffer.waiting, buffer.next, buffer.waiting.len() as int);
    let first = found->0;
    let rest = ReorderView { next: tick_after(buffer.next, 1), waiting: buffer.waiting.remove(first) };
    lemma_released_next(rest);
    lemma_released_next(buffer);
    if at == 0 {
        assert(buffer.waiting[first] == (tick_after(buffer.next, 0), buffer.released().1[0]));
    } else {
        lemma_released_in_turn(rest, at - 1);
        let i = choose|i: int|
            0 <= i < rest.waiting.len() && (#[trigger] rest.waiting[i]) == (
                tick_after(rest.next, at - 1),
                rest.released().1[at - 1],
            );
        let j = if i < first {
            i
        } else {
            i + 1
        };
        assert(buffer.waiting[j] == rest.waiting[i]);
        assert(tick_after(rest.next, at - 1) == tick_after(buffer.next, at));
    }
}

/// After a release, the identifier is due that follows the last one
/// released.
pub proof fn lemma_released_next<P>(buffer: ReorderView<P>)
    ensures
        buffer.released().0.next == tick_after(buffer.next, buffer.released().1.len() as int),
        buffer.released().1.len() <= buffer.waiting.len(),
    decreases buffer.waiting.len(),
{
    lemma_first_at(buffer.waiting, buffer.next, buffer.waiting.len() as int);
    match first_at(buffer.waiting, buffer.next, buffer.waiting.len() as int) {
        Some(first) => {
            let rest = ReorderView {
                next: tick_after(buffer.next, 1),
                waiting: buffer.waiting.remove(first),
            };
            lemma_released_next(rest);
        },
        None => {},
    }
}

/// What holds of every reorder buffer that began empty: no item waits whose
/// turn has passed, and no two wait under one identifier.
pub open spec fn in_window<P>(buffer: ReorderView<P>) -> bool {
    &&& forall|i: int|
        0 <= i < buffer.waiting.len() ==> wrapping_distance(
            (#[trigger] buffer.waiting[i]).0,
            buffer.next,
        ) >= 0
    &&& forall|i: int, j: int|
        0 <= i < j < buffer.waiting.len() ==> (#[trigger] buffer.waiting[i]).0 != (
        #[trigger] buffer.waiting[j]).0
}

/// An item that waits is found under its identifier.
pub proof fn lemma_waiting_is_found<P>(waiting: Seq<(MessageId, P)>, at: int)
    requires
        0 <= at < waiting.len(),
    ensures
        first_at(waiting, waiting[at].0, waiting.len() as int) is Some,
{
    lemma_first_at(waiting, waiting[at].0, waiting.len() as int);
}

/// The identifier that lies `j` after the next one lies `j + 1` after this
/// one.
pub proof fn lemma_tick_step(next: MessageId, j: int)
    requires
        j >= 0,
    ensures
        tick_after(tick_after(next, 1), j) == tick_after(next, j + 1),
{
}

/// An identifier whose turn has not passed, and is not now, has its turn
/// still to come after this one.
pub proof fn lemma_distance_next(id: MessageId, next: MessageId)
    requires
        wrapping_distance(id, next) >= 0,
        id != next,
    ensures
        wrapping_distance(id, tick_after(next, 1)) >= 0,
{
}

/// Of two identifiers that lie after one, less than half the circle apart,
/// the earlier one's turn has passed when the later one is due.
pub proof fn lemma_distance_ticks(next: MessageId, j: int, k: int)
    requires
        0 <= j < k <= 32768,
    ensures
        wrapping_distance(tick_after(next, j), tick_after(next, k)) == j - k,
{
}

/// The buffer without the item that is due, waiting for the identifier
/// after it.
pub open spec fn stepped<P>(buffer: ReorderView<P>, first: int) -> ReorderView<P> {
    ReorderView { next: tick_after(buffer.next, 1), waiting: buffer.waiting.remove(first) }
}

/// Releasing the item that is due keeps the buffer in its window.
pub proof fn lemma_step_window<P>(buffer: ReorderView<P>, first: int)
    requires
        in_window(buffer),
        0 <= first < buffer.waiting.len(),
        buffer.waiting[first].0 == buffer.next,
    ensures
        in_window(stepped(buffer, first)),
{
    let rest = stepped(buffer, first);
    assert forall|i: int| 0 <= i < rest.waiting.len() implies wrapping_distance(
        (#[trigger] rest.waiting[i]).0,
        rest.next,
    ) >= 0 by {
        let k = if i < first {
            i
        } else {
            i + 1
        };
        assert(rest.waiting[i] == buffer.waiting[k]);
        assert(buffer.waiting[k].0 != buffer.waiting[first].0);
        assert(wrapping_distance(buffer.waiting[k].0, buffer.next) >= 0);
        lemma_distance_next(buffer.waiting[k].0, buffer.next);
    }
    assert forall|i: int, j: int| 0 <= i < j < rest.waiting.len() implies (
    #[trigger] rest.waiting[i]).0 != (#[trigger] rest.waiting[j]).0 by {
        let k = if i < first {
            i
        } else {
            i + 1
        };
        let l = if j < first {
            j
        } else {
            j + 1
        };
        assert(rest.waiting[i] == buffer.waiting[k]);
        assert(rest.waiting[j] == buffer.waiting[l]);
        assert(buffer.waiting[k].0 != buffer.waiting[l].0);
    }
}

/// A release keeps the buffer in its window.
pub proof fn lemma_released_window<P>(buffer: ReorderView<P>)
    requires
        in_window(buffer),
    ensures
        in_window(buffer.released().0),
    decreases buffer.waiting.len(),
{
    lemma_first_at(buffer.waiting, buffer.next, buffer.waiting.len() as int);
    match first_at(buffer.waiting, buffer.next, buffer.waiting.len() as int) {
        Some(first) => {
            lemma_step_window(buffer, first);
            lemma_released_window(stepped(buffer, first));
        },
        None => {},
    }
}

/// Whether the item at position `at` still waits after a release.
pub open spec fn still_waits<P>(buffer: ReorderView<P>, at: int) -> bool {
    exists|i: int|
        0 <= i < buffer.released().0.waiting.len() && (#[trigger] buffer.released().0.waiting[i])
            == buffer.waiting[at]
}

/// Whether the item at position `at` is among those released, in its turn.
pub open spec fn was_released<P>(buffer: ReorderView<P>, at: int) -> bool {
    exists|j: int|
        0 <= j < buffer.released().1.len() && buffer.waiting[at].0 == #[trigger] tick_after(
            buffer.next,
            j,
        )
}

/// Each item that waited either still waits after a release, or was released
/// in its turn.
pub proof fn lemma_released_keeps<P>(buffer: ReorderView<P>, at: int)
    requires
        0 <= at < buffer.waiting.len(),
    ensures
        still_waits(buffer, at) || was_released(buffer, at),
    decreases buffer.waiting.len(),
{
    lemma_first_at(buffer.waiting, buffer.next, buffer.waiting.len() as int);
    match first_at(buffer.waiting, buffer.next, buffer.waiting.len() as int) {
        Some(first) => {
            let rest = stepped(buffer, first);
            assert(buffer.released().0 == rest.released().0);
            assert(buffer.released().1 == seq![buffer.waiting[first].1] + rest.released().1);
            if at == first {
                assert(buffer.waiting[at].0 == tick_after(buffer.next, 0));
                assert(was_released(buffer, at));
            } else {
                let moved = if at < first {
                    at
                } else {
                    at - 1
                };
                assert(rest.waiting[moved] == buffer.waiting[at]);
                lemma_released_keeps(rest, moved);
                if still_waits(rest, moved) {
                    let i = choose|i: int|
                        0 <= i < rest.released().0.waiting.len() && (
                        #[trigger] rest.released().0.waiting[i]) == rest.waiting[moved];
                    assert(buffer.released().0.waiting[i] == buffer.waiting[at]);
                    assert(still_waits(buffer, at));
                } else {
                    let j = choose|j: int|
                        0 <= j < rest.released().1.len() && rest.waiting[moved].0
                            == #[trigger] tick_after(rest.next, j);
                    lemma_tick_step(buffer.next, j);
                    assert(buffer.waiting[at].0 == tick_after(buffer.next, j + 1));
                    assert(was_released(buffer, at));
                }
            }
        },
        None => {
            assert(buffer.released().0.waiting[at] == buffer.waiting[at]);
            assert(still_waits(buffer, at));
        },
    }
}

/// No release goes further than half way around the circle of identifiers.
pub proof fn lemma_released_bound<P>(buffer: ReorderView<P>)
    requires
        in_window(buffer),
    ensures
        buffer.released().1.len() <= 32768,
{
    if buffer.released().1.len() > 32768 {
        lemma_released_in_turn(buffer, 32768);
        let i = choose|i: int|
            0 <= i < buffer.waiting.len() && (#[trigger] buffer.waiting[i]) == (
                tick_after(buffer.next, 32768),
                buffer.released().1[32768],
            );
        assert(wrapping_distance(tick_after(buffer.next, 32768), buffer.next) < 0);
    }
}

/// No item is released twice: once an item has arrived under an identifier,
/// whatever arrives under the same identifier is dropped, and the buffer
/// stays in its window.
pub proof fn lemma_accepted_once<P>(buffer: ReorderView<P>, id: MessageId, item: P)
    requires
        in_window(buffer),
    ensures
        in_window(buffer.accepted(id, item).0),
        !buffer.accepted(id, item).0.is_fresh(id),
{
    if buffer.is_fresh(id) {
        let joined = ReorderView { next: buffer.next, waiting: buffer.waiting.push((id, item)) };
        let last = buffer.waiting.len() as int;
        lemma_first_at(buffer.waiting, id, buffer.waiting.len() as int);
        assert(in_window(joined)) by {
            assert forall|i: int, j: int| 0 <= i < j < joined.waiting.len() implies (
            #[trigger] joined.waiting[i]).0 != (#[trigger] joined.waiting[j]).0 by {
                assert(joined.waiting[i] == buffer.waiting[i]);
                if j < last {
                    assert(joined.waiting[j] == buffer.waiting[j]);
                }
            }
            assert forall|i: int| 0 <= i < joined.waiting.len() implies wrapping_distance(
                (#[trigger] joined.waiting[i]).0,
                joined.next,
            ) >= 0 by {
                if i < last {
                    assert(joined.waiting[i] == buffer.waiting[i]);
                }
            }
        }
        lemma_released_window(joined);
        lemma_released_keeps(joined, last);
        lemma_released_bound(joined);
        lemma_released_next(joined);
        let after = joined.released().0;
        if still_waits(joined, last) {
            let i = choose|i: int|
                0 <= i < after.waiting.len() && (#[trigger] after.waiting[i])
                    == joined.waiting[last];
            lemma_waiting_is_found(after.waiting, i);
        } else {
            let j = choose|j: int|
                0 <= j < joined.released().1.len() && joined.waiting[last].0
                    == #[trigger] tick_after(joined.next, j);
            lemma_distance_ticks(joined.next, j, joined.released().1.len() as int);
        }
    }
}

} // verus!
