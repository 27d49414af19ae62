use vstd::prelude::*;
use crate::client::tick_manager::tick_after;
use crate::shared::message_channel::{ChannelSender, ChannelWriter};
use crate::shared::messages::framing::{lemma_tagged_items_push, tagged_bits, tagged_items};
use crate::shared::types::MessageId;
use crate::wire::bit_writer::BitWriter;
use crate::wire::serde::Serde;

verus! {

/// A message that is sent until it has arrived.
pub struct Pending<P> {
    /// The identifier of the message.
    pub id: MessageId,
    /// The time at which the message was last gathered for sending.
    pub last_sent: Option<u64>,
    /// The number of times that the message was gathered for sending.
    pub sends: u8,
    /// The message.
    pub message: P,
}

/// By how much the wait grows with the number of times a message was sent:
/// it doubles with each time, up to 32 times the first wait.
pub open spec fn backoff(sends: u8) -> int {
    if sends <= 1 {
        1
    } else if sends == 2 {
        2
    } else if sends == 3 {
        4
    } else if sends == 4 {
        8
    } else if sends == 5 {
        16
    } else {
        32
    }
}

/// The time to wait before a message is sent again: one and a half round
/// trips after the first sending, and twice as long after each further one.
pub open spec fn resend_wait(rtt_millis: u32, sends: u8) -> int {
    (rtt_millis + rtt_millis / 2) * backoff(sends)
}

/// Whether a message is due for sending at the time `now`.
pub open spec fn is_due<P>(pending: Pending<P>, now: u64, rtt_millis: u32) -> bool {
    match pending.last_sent {
        Some(last) => now >= last && now - last >= resend_wait(rtt_millis, pending.sends),
        None => true,
    }
}

/// A message after it was gathered for sending at the time `now`.
pub open spec fn gathered<P>(pending: Pending<P>, now: u64) -> Pending<P> {
    Pending {
        last_sent: Some(now),
        sends: if pending.sends == 255 {
            255u8
        } else {
            (pending.sends + 1) as u8
        },
        ..pending
    }
}

/// The position of the first of the first `upto` messages that has the
/// identifier `id`.
pub open spec fn index_of<P>(sending: Seq<Pending<P>>, id: MessageId, upto: int) -> Option<int>
    decreases upto,
{
    if upto <= 0 {
        None
    } else {
        match index_of(sending, id, upto - 1) {
            Some(at) => Some(at),
            None => if sending[upto - 1].id == id {
                Some(upto - 1)
            } else {
                None
            },
        }
    }
}

/// What a reliable sender holds: the messages that have not arrived yet,
/// the identifiers of those that are gathered for the next packet, and the
/// identifier of the next message.
pub struct ReliableSenderView<P> {
    pub sending: Seq<Pending<P>>,
    pub outgoing: Seq<MessageId>,
    pub next_id: MessageId,
}

impl<P> ReliableSenderView<P> {
    /// The state after the first `upto` messages were looked at, at the
    /// time `now`: each that is due is gathered for the next packet.
    pub open spec fn collected(self, now: u64, rtt_millis: u32, upto: int) -> ReliableSenderView<P>
        decreases upto,
    {
        if upto <= 0 {
            self
        } else {
            let before = self.collected(now, rtt_millis, upto - 1);
            let pending = before.sending[upto - 1];
            if is_due(pending, now, rtt_millis) {
                ReliableSenderView {
                    sending: before.sending.update(upto - 1, gathered(pending, now)),
                    outgoing: if before.outgoing.contains(pending.id) {
                        before.outgoing
                    } else {
                        before.outgoing.push(pending.id)
                    },
                    ..before
                }
            } else {
                before
            }
        }
    }

    /// Of the first `upto` identifiers that are gathered, those whose
    /// message has not arrived yet: they are what is written.
    pub open spec fn to_write(self, upto: int) -> Seq<MessageId>
        decreases upto,
    {
        if upto <= 0 {
            Seq::empty()
        } else if index_of(self.sending, self.outgoing[upto - 1], self.sending.len() as int)
            is Some {
            self.to_write(upto - 1).push(self.outgoing[upto - 1])
        } else {
            self.to_write(upto - 1)
        }
    }

    /// Of the first `upto` identifiers that are gathered, those whose
    /// message has not arrived yet, each with its message.
    pub open spec fn to_write_messages(self, upto: int) -> Seq<(MessageId, P)>
        decreases upto,
    {
        if upto <= 0 {
            Seq::empty()
        } else {
            match index_of(self.sending, self.outgoing[upto - 1], self.sending.len() as int) {
                Some(at) => self.to_write_messages(upto - 1).push(
                    (self.outgoing[upto - 1], self.sending[at].message),
                ),
                None => self.to_write_messages(upto - 1),
            }
        }
    }

    /// The state after the message `id` has arrived: it is sent no more.
    pub open spec fn delivered(self, id: MessageId) -> ReliableSenderView<P> {
        match index_of(self.sending, id, self.sending.len() as int) {
            Some(at) => ReliableSenderView { sending: self.sending.remove(at), ..self },
            None => self,
        }
    }
}

/// Sends each message again and again, until it hears that the message has
/// arrived. The wait before a message is sent again begins at one and a
/// half round trips, and doubles each time.
///
/// On the wire each message follows a set bit and its identifier, and a
/// clear bit ends the list.
pub struct ReliableSender<P> {
    sending_messages: Vec<Pending<P>>,
    outgoing_messages: Vec<MessageId>,
    next_send_message_id: MessageId,
}

impl<P> View for ReliableSender<P> {
    type V = ReliableSenderView<P>;

    closed spec fn view(&self) -> ReliableSenderView<P> {
        ReliableSenderView {
            sending: self.sending_messages@,
            outgoing: self.outgoing_messages@,
            next_id: self.next_send_message_id,
        }
    }
}

/// The wait before a message is sent again.
fn wait_before_resend(rtt_millis: u32, sends: u8) -> (wait: u64)
    ensures
        wait == resend_wait(rtt_millis, sends),
{
    let base: u64 = rtt_millis as u64 + (rtt_millis / 2) as u64;
    let factor: u64 = if sends <= 1 {
        1
    } else if sends == 2 {
        2
    } else if sends == 3 {
        4
    } else if sends == 4 {
        8
    } else if sends == 5 {
        16
    } else {
        32
    };
    assert(base * factor <= 0x1_0000_0000 * 2 * 32) by (nonlinear_arith)
        requires
            base <= 0x1_0000_0000 * 2,
            factor <= 32,
    ;
    base * factor
}

/// Whether `id` is among `ids`.
fn has_id(ids: &Vec<MessageId>, id: MessageId) -> (found: bool)
    ensures
        found == ids@.contains(id),
{
    let mut i: usize = 0;
    while i < ids.len()
        invariant
            i <= ids@.len(),
            forall|j: int| 0 <= j < i ==> ids@[j] != id,
        decreases ids@.len() - i,
    {
        if ids[i] == id {
            return true;
        }
        i += 1;
    }
    false
}

impl<P> ReliableSender<P> {
    /// A sender without messages, which begins with the identifier 0.
    pub fn new() -> (sender: Self)
        ensures
            sender@ == (ReliableSenderView {
                sending: Seq::<Pending<P>>::empty(),
                outgoing: Seq::<MessageId>::empty(),
                next_id: 0,
            }),
    {
        ReliableSender {
            sending_messages: Vec::new(),
            outgoing_messages: Vec::new(),
            next_send_message_id: 0,
        }
    }

    /// The position of the message `id` among those that have not arrived.
    fn position(&self, id: MessageId) -> (found: Option<usize>)
        ensures
            match found {
                Some(at) => index_of(self@.sending, id, self@.sending.len() as int) == Some(
                    at as int,
                ) && at < self@.sending.len(),
                None => index_of(self@.sending, id, self@.sending.len() as int) is None,
            },
    {
        let mut i: usize = 0;
        while i < self.sending_messages.len()
            invariant
                i <= self.sending_messages@.len(),
                index_of(self.sending_messages@, id, i as int) is None,
            decreases self.sending_messages@.len() - i,
        {
            if self.sending_messages[i].id == id {
                proof {
                    lemma_index_of_stays(
                        self.sending_messages@,
                        id,
                        i as int + 1,
                        self.sending_messages@.len() as int,
                    );
                }
                return Some(i);
            }
            i += 1;
        }
        None
    }
}

impl<P: Send + Sync> ChannelSender<P> for ReliableSender<P> {
    /// Takes in a message and gives it the next identifier. It is due for
    /// sending at once.
    fn send_message(&mut self, message: P)
        ensures
            final(self)@ == (ReliableSenderView {
                sending: old(self)@.sending.push(
                    Pending { id: old(self)@.next_id, last_sent: None, sends: 0, message },
                ),
                next_id: tick_after(old(self)@.next_id, 1),
                ..old(self)@
            }),
    {
        self.sending_messages.push(
            Pending { id: self.next_send_message_id, last_sent: None, sends: 0, message },
        );
        self.next_send_message_id = self.next_send_message_id.wrapping_add(1);
    }

    /// Gathers for the next packet each message that is due at the time
    /// `now`: each that was never sent, and each whose last sending lies
    /// back by its wait or more.
    fn collect_messages(&mut self, now: u64, rtt_millis: u32)
        ensures
            final(self)@ == old(self)@.collected(now, rtt_millis, old(self)@.sending.len() as int),
    {
        let size = self.sending_messages.len();
        let mut i: usize = 0;
        while i < size
            invariant
                i <= size,
                size == self.sending_messages@.len(),
                size == old(self)@.sending.len(),
                self@ == old(self)@.collected(now, rtt_millis, i as int),
                forall|j: int|
                    i <= j < size ==> self.sending_messages@[j] == old(self)@.sending[j],
            decreases size - i,
        {
            let ghost before = self@;
            proof {
                lemma_collected_keeps_rest(old(self)@, now, rtt_millis, i as int, i as int);
            }
            let due = match self.sending_messages[i].last_sent {
                Some(last) => now >= last && now - last >= wait_before_resend(
                    rtt_millis,
                    self.sending_messages[i].sends,
                ),
                None => true,
            };
            if due {
                let mut pending = self.sending_messages.remove(i);
                pending.last_sent = Some(now);
                if pending.sends < 255 {
                    pending.sends = pending.sends + 1;
                }
                let id = pending.id;
                self.sending_messages.insert(i, pending);
                if !has_id(&self.outgoing_messages, id) {
                    self.outgoing_messages.push(id);
                }
                assert(self.sending_messages@ =~= before.sending.update(
                    i as int,
                    gathered(before.sending[i as int], now),
                ));
            }
            i += 1;
        }
    }

    fn has_messages(&self) -> (has: bool)
        ensures
            has == (self@.outgoing.len() != 0),
    {
        self.outgoing_messages.len() != 0
    }

    /// Writes the messages that are gathered, each after a set bit and its
    /// identifier, then a clear bit, and gives the identifiers of those
    /// written, in order. A message that has arrived in the meantime is
    /// left out.
    fn write_messages<W: ChannelWriter<P>>(
        &mut self,
        channel_writer: &W,
        bit_writer: &mut BitWriter,
    ) -> (written: Option<Vec<MessageId>>)
        ensures
            written is Some,
            written->0@ == old(self)@.to_write(old(self)@.outgoing.len() as int),
            final(self)@ == (ReliableSenderView { outgoing: Seq::<MessageId>::empty(), ..old(self)@ }),
            final(bit_writer)@ == old(bit_writer)@ + tagged_bits(
                channel_writer,
                old(self)@.to_write_messages(old(self)@.outgoing.len() as int),
            ),
    {
        let mut written: Vec<MessageId> = Vec::new();
        let mut i: usize = 0;
        assert(bit_writer@ =~= old(bit_writer)@ + tagged_items(
            channel_writer,
            old(self)@.to_write_messages(0),
        ));
        while i < self.outgoing_messages.len()
            invariant
                i <= self.outgoing_messages@.len(),
                bit_writer.wf(),
                self@ == old(self)@,
                written@ == old(self)@.to_write(i as int),
                bit_writer@ == old(bit_writer)@ + tagged_items(
                    channel_writer,
                    old(self)@.to_write_messages(i as int),
                ),
            decreases self.outgoing_messages@.len() - i,
        {
            let id = self.outgoing_messages[i];
            match self.position(id) {
                Some(at) => {
                    bit_writer.write_bit(true);
                    id.ser(bit_writer);
                    channel_writer.write(bit_writer, &self.sending_messages[at].message);
                    written.push(id);
                    proof {
                        lemma_tagged_items_push(
                            channel_writer,
                            old(self)@.to_write_messages(i as int),
                            id,
                            self.sending_messages@[at as int].message,
                        );
                        assert(bit_writer@ =~= old(bit_writer)@ + tagged_items(
                            channel_writer,
                            old(self)@.to_write_messages(i as int + 1),
                        ));
                    }
                },
                None => {},
            }
            i += 1;
        }
        bit_writer.write_bit(false);
        self.outgoing_messages = Vec::new();
        assert(bit_writer@ =~= old(bit_writer)@ + tagged_bits(
            channel_writer,
            old(self)@.to_write_messages(old(self)@.outgoing.len() as int),
        ));
        Some(written)
    }

    /// Takes note that the message `message_id` has arrived: it is sent no
    /// more.
    fn notify_message_delivered(&mut self, message_id: &MessageId)
        ensures
            final(self)@ == old(self)@.delivered(*message_id),
    {
        match self.position(*message_id) {
            Some(at) => {
                let _ = self.sending_messages.remove(at);
            },
            None => {},
        }
    }
}

/// Once an identifier was found among the first messages, it is found at
/// the same place among more of them.
pub proof fn lemma_index_of_stays<P>(sending: Seq<Pending<P>>, id: MessageId, from: int, upto: int)
    requires
        0 <= from <= upto,
        index_of(sending, id, from) is Some,
    ensures
        index_of(sending, id, upto) == index_of(sending, id, from),
    decreases upto - from,
{
    if from < upto {
        lemma_index_of_stays(sending, id, from, upto - 1);
    }
}

/// Looking at the first messages changes none of the others, nor their
/// number.
pub proof fn lemma_collected_keeps_rest<P>(
    state: ReliableSenderView<P>,
    now: u64,
    rtt_millis: u32,
    upto: int,
    at: int,
)
    requires
        0 <= upto <= at < state.sending.len(),
    ensures
        state.collected(now, rtt_millis, upto).sending.len() == state.sending.len(),
        state.collected(now, rtt_millis, upto).sending[at] == state.sending[at],
        state.collected(now, rtt_millis, upto).next_id == state.next_id,
    decreases upto,
{
    if upto > 0 {
        lemma_collected_keeps_rest(state, now, rtt_millis, upto - 1, at);
        lemma_collected_keeps_rest(state, now, rtt_millis, upto - 1, upto - 1);
    }
}

/// A message that has never been sent is due at once, and a message that
/// was gathered is not due again before its wait has passed.
pub proof fn lemma_resend_after_wait<P>(pending: Pending<P>, sent: u64, now: u64, rtt_millis: u32)
    requires
        sent <= now,
    ensures
        pending.last_sent is None ==> is_due(pending, now, rtt_millis),
        is_due(gathered(pending, sent), now, rtt_millis) <==> now - sent >= resend_wait(
            rtt_millis,
            gathered(pending, sent).sends,
        ),
{
}

} // verus!
