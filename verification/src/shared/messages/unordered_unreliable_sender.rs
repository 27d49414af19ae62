use vstd::prelude::*;
use crate::shared::message_channel::{ChannelSender, ChannelWriter};
use crate::shared::messages::framing::{lemma_plain_items_push, plain_bits, plain_items};
use crate::shared::types::MessageId;
use crate::wire::bit_writer::BitWriter;
use std::collections::VecDeque;

verus! {

/// Sends each message once and forgets it.
///
/// On the wire each message follows a set bit, and a clear bit ends the
/// list.
pub struct UnorderedUnreliableSender<P> {
    outgoing_messages: VecDeque<P>,
}

impl<P> View for UnorderedUnreliableSender<P> {
    type V = Seq<P>;

    /// The messages that wait to be written, oldest first.
    closed spec fn view(&self) -> Seq<P> {
        self.outgoing_messages@
    }
}

impl<P> UnorderedUnreliableSender<P> {
    /// A sender without messages.
    pub fn new() -> (sender: Self)
        ensures
            sender@ == Seq::<P>::empty(),
    {
        UnorderedUnreliableSender { outgoing_messages: VecDeque::new() }
    }
}

impl<P: Send + Sync> ChannelSender<P> for UnorderedUnreliableSender<P> {
    /// Takes in a message; it waits to be written.
    fn send_message(&mut self, message: P)
        ensures
            final(self)@ == old(self)@.push(message),
    {
        self.outgoing_messages.push_back(message);
    }

    /// Nothing is to be gathered: every message goes out with the next
    /// packet.
    fn collect_messages(&mut self, now: u64, rtt_millis: u32)
        ensures
            final(self)@ == old(self)@,
    {
    }

    fn has_messages(&self) -> (has: bool)
        ensures
            has == (self@.len() != 0),
    {
        self.outgoing_messages.len() != 0
    }

    /// Writes all messages that wait, each after a set bit, then a clear
    /// bit, and forgets them. No identifiers are given: the channel does
    /// not keep track of its messages.
    fn write_messages<W: ChannelWriter<P>>(
        &mut self,
        channel_writer: &W,
        bit_writer: &mut BitWriter,
    ) -> (written: Option<Vec<MessageId>>)
        ensures
            written is None,
            final(self)@ == Seq::<P>::empty(),
            final(bit_writer)@ == old(bit_writer)@ + plain_bits(channel_writer, old(self)@),
    {
        let ghost all = self.outgoing_messages@;
        let ghost mut done: int = 0;
        proof {
            assert(self.outgoing_messages@ =~= all.skip(0));
            assert(bit_writer@ =~= old(bit_writer)@ + plain_items(channel_writer, all.subrange(0, 0)));
        }
        while self.outgoing_messages.len() > 0
            invariant
                bit_writer.wf(),
                0 <= done <= all.len(),
                self.outgoing_messages@ == all.skip(done),
                bit_writer@ == old(bit_writer)@ + plain_items(channel_writer, all.subrange(0, done)),
            decreases self.outgoing_messages@.len(),
        {
            let ghost before = bit_writer@;
            match self.outgoing_messages.pop_front() {
                Some(message) => {
                    bit_writer.write_bit(true);
                    channel_writer.write(bit_writer, &message);
                    proof {
                        lemma_plain_items_push(channel_writer, all.subrange(0, done), message);
                        assert(all.subrange(0, done).push(message) =~= all.subrange(0, done + 1));
                        assert(bit_writer@ =~= old(bit_writer)@ + plain_items(
                            channel_writer,
                            all.subrange(0, done + 1),
                        ));
                        done = done + 1;
                        assert(self.outgoing_messages@ =~= all.skip(done));
                    }
                },
                None => {},
            }
        }
        bit_writer.write_bit(false);
        proof {
            assert(all.subrange(0, done) =~= all);
            assert(self.outgoing_messages@ =~= Seq::<P>::empty());
            assert(bit_writer@ =~= old(bit_writer)@ + plain_bits(channel_writer, all));
        }
        None
    }

    /// Nothing is kept of a message once it was written.
    fn notify_message_delivered(&mut self, message_id: &MessageId)
        ensures
            final(self)@ == old(self)@,
    {
    }
}

} // verus!
