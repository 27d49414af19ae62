use vstd::prelude::*;
use crate::shared::message_channel::{ChannelReader, ChannelReceiver};
use crate::shared::messages::framing::{read_tagged, tagged_batch};
use crate::shared::messages::unordered_unreliable_receiver::drain;
use crate::shared::types::MessageId;
use crate::shared::wrapping::{comes_after, sequence_greater_than};
use crate::wire::bit_reader::BitReader;
use crate::wire::error::SerdeErr;
use crate::wire::serde::Serde;
use std::collections::VecDeque;

verus! {

/// What a sequenced receiver holds: the newest identifier it has seen, and
/// the messages that are ready for the application.
pub struct SequencedView<P> {
    pub newest: Option<MessageId>,
    pub ready: Seq<P>,
}

impl<P> SequencedView<P> {
    /// Whether a message with the identifier `id` is newer than all that
    /// were seen; identifiers wrap.
    pub open spec fn is_newer(self, id: MessageId) -> bool {
        match self.newest {
            Some(newest) => comes_after(id, newest),
            None => true,
        }
    }

    /// The state after a message has arrived: a message that is newer than
    /// all before it is taken; any other is dropped.
    pub open spec fn buffered(self, id: MessageId, message: P) -> SequencedView<P> {
        if self.is_newer(id) {
            SequencedView { newest: Some(id), ready: self.ready.push(message) }
        } else {
            self
        }
    }

    /// The state after the first `upto` messages of `batch` have arrived.
    pub open spec fn buffered_all(self, batch: Seq<(MessageId, P)>, upto: int) -> SequencedView<P>
        decreases upto,
    {
        if upto <= 0 {
            self
        } else {
            self.buffered_all(batch, upto - 1).buffered(batch[upto - 1].0, batch[upto - 1].1)
        }
    }
}

/// Hands on a message only where it is newer than every message handed on
/// before: what comes late is dropped.
pub struct SequencedUnreliableReceiver<P> {
    newest_received_message_id: Option<MessageId>,
    incoming_messages: VecDeque<P>,
}

impl<P> View for SequencedUnreliableReceiver<P> {
    type V = SequencedView<P>;

    closed spec fn view(&self) -> SequencedView<P> {
        SequencedView { newest: self.newest_received_message_id, ready: self.incoming_messages@ }
    }
}

impl<P> SequencedUnreliableReceiver<P> {
    /// A receiver that has seen nothing.
    pub fn new() -> (receiver: Self)
        ensures
            receiver@ == (SequencedView { newest: None, ready: Seq::<P>::empty() }),
    {
        SequencedUnreliableReceiver {
            newest_received_message_id: None,
            incoming_messages: VecDeque::new(),
        }
    }

    /// Takes in a message that has arrived, or drops it where a newer one
    /// was seen.
    pub fn buffer_message(&mut self, message_id: MessageId, message: P)
        ensures
            final(self)@ == old(self)@.buffered(message_id, message),
    {
        let newer = match self.newest_received_message_id {
            Some(newest) => sequence_greater_than(message_id, newest),
            None => true,
        };
        if newer {
            self.newest_received_message_id = Some(message_id);
            self.incoming_messages.push_back(message);
        }
    }

    /// Reads the messages of a packet with their identifiers, and takes in
    /// each. The reading succeeds where the list of messages is whole, and
    /// then leaves the reader behind the list. Where the list breaks off,
    /// the messages before that are taken in.
    pub fn read_sequenced<C: ChannelReader<P>>(&mut self, channel_reader: &C, reader: &mut BitReader) -> (read:
        Result<(), SerdeErr>)
        requires
            old(reader).wf(),
        ensures
            final(reader).wf(),
            final(self)@ == old(self)@.buffered_all(
                tagged_batch(channel_reader, old(reader)@).items,
                tagged_batch(channel_reader, old(reader)@).items.len() as int,
            ),
            read is Ok <==> tagged_batch(channel_reader, old(reader)@).used is Some,
            read is Ok ==> final(reader)@ == old(reader)@.skip(
                tagged_batch(channel_reader, old(reader)@).used.unwrap(),
            ),
    {
        let taken = read_tagged(channel_reader, reader);
        let mut batch = taken.0;
        let ghost all = batch@;
        let ghost mut done: int = 0;
        assert(batch@ =~= all.skip(0));
        while batch.len() > 0
            invariant
                0 <= done <= all.len(),
                batch@ == all.skip(done),
                self@ == old(self)@.buffered_all(all, done),
            decreases batch@.len(),
        {
            match batch.pop_front() {
                Some((message_id, message)) => {
                    self.buffer_message(message_id, message);
                    proof {
                        done = done + 1;
                        assert(batch@ =~= all.skip(done));
                    }
                },
                None => {},
            }
        }
        if taken.1 {
            Ok(())
        } else {
            Err(SerdeErr)
        }
    }

    /// Gives the messages that are ready.
    pub fn take_messages(&mut self) -> (messages: Vec<P>)
        ensures
            messages@ == old(self)@.ready,
            final(self)@ == (SequencedView { newest: old(self)@.newest, ready: Seq::<P>::empty() }),
    {
        drain(&mut self.incoming_messages)
    }
}

impl<P: Send + Sync> ChannelReceiver<P> for SequencedUnreliableReceiver<P> {
    /// Reads the messages of a packet, and takes in each that is newer than
    /// all before it. The reading succeeds where the list of messages is
    /// whole, and then leaves the reader behind the list. Where the list
    /// breaks off, the messages before that are taken in.
    fn read_messages<C: ChannelReader<P>>(&mut self, channel_reader: &C, reader: &mut BitReader) -> (read:
        Result<(), SerdeErr>)
        ensures
            final(self)@ == old(self)@.buffered_all(
                tagged_batch(channel_reader, old(reader)@).items,
                tagged_batch(channel_reader, old(reader)@).items.len() as int,
            ),
            read is Ok <==> tagged_batch(channel_reader, old(reader)@).used is Some,
            read is Ok ==> final(reader)@ == old(reader)@.skip(
                tagged_batch(channel_reader, old(reader)@).used.unwrap(),
            ),
    {
        self.read_sequenced(channel_reader, reader)
    }

    /// Gives the messages that are ready, in the order of their arrival.
    fn receive_messages(&mut self) -> (messages: Vec<P>)
        ensures
            messages@ == old(self)@.ready,
            final(self)@ == (SequencedView { newest: old(self)@.newest, ready: Seq::<P>::empty() }),
    {
        self.take_messages()
    }
}

/// Of the messages that arrive, those are handed on whose identifiers go
/// up: a message that is handed on is newer than the one handed on before
/// it, and a message that is not newer than the newest seen is dropped.
pub proof fn lemma_sequenced_drops_late<P>(state: SequencedView<P>, id: MessageId, message: P)
    ensures
        state.is_newer(id) ==> state.buffered(id, message).ready == state.ready.push(message)
            && state.buffered(id, message).newest == Some(id),
        !state.is_newer(id) ==> state.buffered(id, message) == state,
        state.newest == Some(id) ==> state.buffered(id, message) == state,
{
}

} // verus!
