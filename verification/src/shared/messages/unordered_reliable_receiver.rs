use vstd::prelude::*;
use crate::shared::message_channel::{ChannelReader, ChannelReceiver};
use crate::shared::messages::framing::{read_tagged, tagged_batch};
use crate::shared::messages::ordered_reliable_receiver::{Reorder, ReorderView};
use crate::shared::messages::unordered_unreliable_receiver::drain;
use crate::shared::types::MessageId;
use crate::wire::bit_reader::BitReader;
use crate::wire::error::SerdeErr;
use crate::wire::serde::Serde;
use std::collections::VecDeque;

verus! {

/// What an unordered reliable receiver holds: the identifiers it has seen,
/// as a reorder buffer without items, and the messages that are ready for
/// the application.
pub struct UnorderedView<P> {
    pub seen: ReorderView<()>,
    pub ready: Seq<P>,
}

impl<P> UnorderedView<P> {
    /// The state after a message has arrived: a message that was not seen
    /// before is ready at once; one that was is dropped.
    pub open spec fn buffered(self, id: MessageId, message: P) -> UnorderedView<P> {
        if self.seen.is_fresh(id) {
            UnorderedView { seen: self.seen.accepted(id, ()).0, ready: self.ready.push(message) }
        } else {
            self
        }
    }

    /// The state after the first `upto` messages of `batch` have arrived.
    pub open spec fn buffered_all(self, batch: Seq<(MessageId, P)>, upto: int) -> UnorderedView<P>
        decreases upto,
    {
        if upto <= 0 {
            self
        } else {
            self.buffered_all(batch, upto - 1).buffered(batch[upto - 1].0, batch[upto - 1].1)
        }
    }
}

/// Hands on each message of a channel once, in the order of arrival: what
/// the sender sends again, because it did not hear of its arrival, is
/// dropped.
pub struct UnorderedReliableReceiver<P> {
    seen: Reorder<()>,
    incoming_messages: VecDeque<P>,
}

impl<P> View for UnorderedReliableReceiver<P> {
    type V = UnorderedView<P>;

    closed spec fn view(&self) -> UnorderedView<P> {
        UnorderedView { seen: self.seen@, ready: self.incoming_messages@ }
    }
}

impl<P> UnorderedReliableReceiver<P> {
    /// A receiver that has seen nothing.
    pub fn new() -> (receiver: Self)
        ensures
            receiver@ == (UnorderedView {
                seen: ReorderView { next: 0, waiting: Seq::<(MessageId, ())>::empty() },
                ready: Seq::<P>::empty(),
            }),
    {
        UnorderedReliableReceiver { seen: Reorder::new(), incoming_messages: VecDeque::new() }
    }

    /// Takes in a message that has arrived, or drops it where it arrived
    /// before.
    pub fn buffer_message(&mut self, message_id: MessageId, message: P)
        ensures
            final(self)@ == old(self)@.buffered(message_id, message),
    {
        if self.seen.accept(message_id, ()).is_some() {
            self.incoming_messages.push_back(message);
        }
    }
}

impl<P: Send + Sync> ChannelReceiver<P> for UnorderedReliableReceiver<P> {
    /// Reads the messages of a packet with their identifiers, and takes in
    /// each. The reading succeeds where the list of messages is whole, and
    /// then leaves the reader behind the list. Where the list breaks off,
    /// the messages before that are taken in.
    fn read_messages<C: ChannelReader<P>>(&mut self, channel_reader: &C, reader: &mut BitReader) -> (read:
        Result<(), SerdeErr>)
        ensures
            final(self)@ == old(self)@.buffered_all(
                tagged_batch(channel_reader, old(reader)@).items,
                tagged_batch(channel_reader, old(reader)@).items.len() as int,
            ),
            read is Ok <==> tagged_batch(channel_reader, old(reader)@).used is Some,
            read is Ok ==> final(reader)@ == old(reader)@.skip(
                tagged_batch(channel_reader, old(reader)@).used.unwrap(),
            ),
    {
        let taken = read_tagged(channel_reader, reader);
        let mut batch = taken.0;
        let ghost all = batch@;
        let ghost mut done: int = 0;
        assert(batch@ =~= all.skip(0));
        while batch.len() > 0
            invariant
                0 <= done <= all.len(),
                batch@ == all.skip(done),
                self@ == old(self)@.buffered_all(all, done),
            decreases batch@.len(),
        {
            match batch.pop_front() {
                Some((message_id, message)) => {
                    self.buffer_message(message_id, message);
                    proof {
                        done = done + 1;
                        assert(batch@ =~= all.skip(done));
                    }
                },
                None => {},
            }
        }
        if taken.1 {
            Ok(())
        } else {
            Err(SerdeErr)
        }
    }

    /// Gives the messages that are ready, in the order of their arrival.
    fn receive_messages(&mut self) -> (messages: Vec<P>)
        ensures
            messages@ == old(self)@.ready,
            final(self)@ == (UnorderedView { seen: old(self)@.seen, ready: Seq::<P>::empty() }),
    {
        drain(&mut self.incoming_messages)
    }
}

} // verus!
