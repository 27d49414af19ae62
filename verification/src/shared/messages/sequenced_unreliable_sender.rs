use vstd::prelude::*;
use crate::client::tick_manager::tick_after;
use crate::shared::message_channel::{ChannelSender, ChannelWriter};
use crate::shared::messages::framing::{lemma_tagged_items_push, tagged_bits, tagged_items};
use crate::shared::types::MessageId;
use crate::wire::bit_writer::BitWriter;
use crate::wire::serde::Serde;
use std::collections::VecDeque;

verus! {

/// What a sequenced sender holds: the messages that wait to be written with
/// their identifiers, and the identifier of the next message.
pub struct SequencedSenderView<P> {
    pub outgoing: Seq<(MessageId, P)>,
    pub next_id: MessageId,
}

/// Sends each message once, under an identifier that goes up by one with
/// each message and wraps, so that the receiver can tell which is newer.
///
/// On the wire each message follows a set bit and its identifier, and a
/// clear bit ends the list.
pub struct SequencedUnreliableSender<P> {
    outgoing_messages: VecDeque<(MessageId, P)>,
    next_send_message_id: MessageId,
}

impl<P> View for SequencedUnreliableSender<P> {
    type V = SequencedSenderView<P>;

    closed spec fn view(&self) -> SequencedSenderView<P> {
        SequencedSenderView {
            outgoing: self.outgoing_messages@,
            next_id: self.next_send_message_id,
        }
    }
}

impl<P> SequencedUnreliableSender<P> {
    /// A sender without messages, which begins with the identifier 0.
    pub fn new() -> (sender: Self)
        ensures
            sender@ == (SequencedSenderView { outgoing: Seq::<(MessageId, P)>::empty(), next_id: 0 }),
    {
        SequencedUnreliableSender { outgoing_messages: VecDeque::new(), next_send_message_id: 0 }
    }
}

impl<P: Send + Sync> ChannelSender<P> for SequencedUnreliableSender<P> {
    /// Takes in a message and gives it the next identifier.
    fn send_message(&mut self, message: P)
        ensures
            final(self)@ == (SequencedSenderView {
                outgoing: old(self)@.outgoing.push((old(self)@.next_id, message)),
                next_id: tick_after(old(self)@.next_id, 1),
            }),
    {
        self.outgoing_messages.push_back((self.next_send_message_id, message));
        self.next_send_message_id = self.next_send_message_id.wrapping_add(1);
    }

    /// Nothing is to be gathered: every message goes out with the next
    /// packet.
    fn collect_messages(&mut self, now: u64, rtt_millis: u32)
        ensures
            final(self)@ == old(self)@,
    {
    }

    fn has_messages(&self) -> (has: bool)
        ensures
            has == (self@.outgoing.len() != 0),
    {
        self.outgoing_messages.len() != 0
    }

    /// Writes all messages that wait, each after a set bit and its
    /// identifier, then a clear bit, and forgets them. No identifiers are
    /// given: the channel does not keep track of what arrives.
    fn write_messages<W: ChannelWriter<P>>(
        &mut self,
        channel_writer: &W,
        bit_writer: &mut BitWriter,
    ) -> (written: Option<Vec<MessageId>>)
        ensures
            written is None,
            final(self)@ == (SequencedSenderView {
                outgoing: Seq::<(MessageId, P)>::empty(),
                next_id: old(self)@.next_id,
            }),
            final(bit_writer)@ == old(bit_writer)@ + tagged_bits(channel_writer, old(self)@.outgoing),
    {
        let ghost all = self.outgoing_messages@;
        let ghost mut done: int = 0;
        proof {
            assert(self.outgoing_messages@ =~= all.skip(0));
            assert(bit_writer@ =~= old(bit_writer)@ + tagged_items(channel_writer, all.subrange(0, 0)));
        }
        while self.outgoing_messages.len() > 0
            invariant
                bit_writer.wf(),
                self.next_send_message_id == old(self).next_send_message_id,
                0 <= done <= all.len(),
                self.outgoing_messages@ == all.skip(done),
                bit_writer@ == old(bit_writer)@ + tagged_items(channel_writer, all.subrange(0, done)),
            decreases self.outgoing_messages@.len(),
        {
            match self.outgoing_messages.pop_front() {
                Some((message_id, message)) => {
                    bit_writer.write_bit(true);
                    message_id.ser(bit_writer);
                    channel_writer.write(bit_writer, &message);
                    proof {
                        lemma_tagged_items_push(
                            channel_writer,
                            all.subrange(0, done),
                            message_id,
                            message,
                        );
                        assert(all.subrange(0, done).push((message_id, message)) =~= all.subrange(
                            0,
                            done + 1,
                        ));
                        assert(bit_writer@ =~= old(bit_writer)@ + tagged_items(
                            channel_writer,
                            all.subrange(0, done + 1),
                        ));
                        done = done + 1;
                        assert(self.outgoing_messages@ =~= all.skip(done));
                    }
                },
                None => {},
            }
        }
        bit_writer.write_bit(false);
        proof {
            assert(all.subrange(0, done) =~= all);
            assert(self.outgoing_messages@ =~= Seq::<(MessageId, P)>::empty());
            assert(bit_writer@ =~= old(bit_writer)@ + tagged_bits(channel_writer, all));
        }
        None
    }

    /// Nothing is kept of a message once it was written.
    fn notify_message_delivered(&mut self, message_id: &MessageId)
        ensures
            final(self)@ == old(self)@,
    {
    }
}

} // verus!
