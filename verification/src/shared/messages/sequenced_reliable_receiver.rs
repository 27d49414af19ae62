use vstd::prelude::*;
use crate::shared::message_channel::{ChannelReader, ChannelReceiver};
use crate::shared::messages::framing::tagged_batch;
use crate::shared::messages::sequenced_unreliable_receiver::{
    SequencedUnreliableReceiver, SequencedView,
};
use crate::shared::types::MessageId;
use crate::wire::bit_reader::BitReader;
use crate::wire::error::SerdeErr;

verus! {

/// The receiver of a channel whose sender sends each message until it has
/// arrived, and whose messages matter only as long as no newer one has
/// arrived: a message is handed on where it is newer than every message
/// handed on before, and dropped where it is superseded.
pub struct SequencedReliableReceiver<P> {
    sequence: SequencedUnreliableReceiver<P>,
}

impl<P> View for SequencedReliableReceiver<P> {
    type V = SequencedView<P>;

    closed spec fn view(&self) -> SequencedView<P> {
        self.sequence@
    }
}

impl<P> SequencedReliableReceiver<P> {
    /// A receiver that has seen nothing.
    pub fn new() -> (receiver: Self)
        ensures
            receiver@ == (SequencedView { newest: None, ready: Seq::<P>::empty() }),
    {
        SequencedReliableReceiver { sequence: SequencedUnreliableReceiver::new() }
    }

    /// Takes in a message that has arrived, or drops it where it is
    /// superseded.
    pub fn buffer_message(&mut self, message_id: MessageId, message: P)
        ensures
            final(self)@ == old(self)@.buffered(message_id, message),
    {
        self.sequence.buffer_message(message_id, message);
    }
}

impl<P: Send + Sync> ChannelReceiver<P> for SequencedReliableReceiver<P> {
    /// Reads the messages of a packet, and takes in each that is not
    /// superseded. The reading succeeds where the list of messages is
    /// whole, and then leaves the reader behind the list. Where the list
    /// breaks off, the messages before that are taken in.
    fn read_messages<C: ChannelReader<P>>(&mut self, channel_reader: &C, reader: &mut BitReader) -> (read:
        Result<(), SerdeErr>)
        ensures
            final(self)@ == old(self)@.buffered_all(
                tagged_batch(channel_reader, old(reader)@).items,
                tagged_batch(channel_reader, old(reader)@).items.len() as int,
            ),
            read is Ok <==> tagged_batch(channel_reader, old(reader)@).used is Some,
            read is Ok ==> final(reader)@ == old(reader)@.skip(
                tagged_batch(channel_reader, old(reader)@).used.unwrap(),
            ),
    {
        self.sequence.read_sequenced(channel_reader, reader)
    }

    /// Gives the messages that are ready, in the order of their arrival.
    fn receive_messages(&mut self) -> (messages: Vec<P>)
        ensures
            messages@ == old(self)@.ready,
            final(self)@ == (SequencedView { newest: old(self)@.newest, ready: Seq::<P>::empty() }),
    {
        self.sequence.take_messages()
    }
}

} // verus!
