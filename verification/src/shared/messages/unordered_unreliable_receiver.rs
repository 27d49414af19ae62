use vstd::prelude::*;
use crate::shared::message_channel::{ChannelReader, ChannelReceiver};
use crate::shared::messages::framing::{plain_batch, read_plain};
use crate::wire::bit_reader::BitReader;
use crate::wire::error::SerdeErr;
use std::collections::VecDeque;

verus! {

/// Hands on each message as it arrives.
pub struct UnorderedUnreliableReceiver<P> {
    incoming_messages: VecDeque<P>,
}

impl<P> View for UnorderedUnreliableReceiver<P> {
    type V = Seq<P>;

    /// The messages that are ready for the application, in the order of
    /// their arrival.
    closed spec fn view(&self) -> Seq<P> {
        self.incoming_messages@
    }
}

/// Takes the messages out of a queue, in order.
pub fn drain<P>(queue: &mut VecDeque<P>) -> (messages: Vec<P>)
    ensures
        messages@ == old(queue)@,
        final(queue)@ == Seq::<P>::empty(),
{
    let mut messages: Vec<P> = Vec::new();
    assert(messages@ + queue@ =~= old(queue)@);
    while queue.len() > 0
        invariant
            messages@ + queue@ == old(queue)@,
        decreases queue@.len(),
    {
        let ghost before = queue@;
        let ghost taken = messages@;
        match queue.pop_front() {
            Some(message) => {
                messages.push(message);
                assert(messages@ + queue@ =~= taken + before);
            },
            None => {},
        }
    }
    assert(messages@ =~= old(queue)@);
    assert(queue@ =~= Seq::<P>::empty());
    messages
}

impl<P> UnorderedUnreliableReceiver<P> {
    /// A receiver without messages.
    pub fn new() -> (receiver: Self)
        ensures
            receiver@ == Seq::<P>::empty(),
    {
        UnorderedUnreliableReceiver { incoming_messages: VecDeque::new() }
    }

    /// Takes in a message that has arrived.
    pub fn buffer_message(&mut self, message: P)
        ensures
            final(self)@ == old(self)@.push(message),
    {
        self.incoming_messages.push_back(message);
    }
}

impl<P: Send + Sync> ChannelReceiver<P> for UnorderedUnreliableReceiver<P> {
    /// Reads the messages of a packet, and takes in each. The reading
    /// succeeds where the list of messages is whole, and then leaves the
    /// reader behind the list. Where the list breaks off, the messages
    /// before that are taken in.
    fn read_messages<C: ChannelReader<P>>(&mut self, channel_reader: &C, reader: &mut BitReader) -> (read:
        Result<(), SerdeErr>)
        ensures
            final(self)@ == old(self)@ + plain_batch(channel_reader, old(reader)@).items,
            read is Ok <==> plain_batch(channel_reader, old(reader)@).used is Some,
            read is Ok ==> final(reader)@ == old(reader)@.skip(
                plain_batch(channel_reader, old(reader)@).used.unwrap(),
            ),
    {
        let taken = read_plain(channel_reader, reader);
        let mut batch = taken.0;
        let ghost all = batch@;
        let ghost mut done: int = 0;
        proof {
            assert(batch@ =~= all.skip(0));
            assert(self@ =~= old(self)@ + all.subrange(0, 0));
        }
        while batch.len() > 0
            invariant
                0 <= done <= all.len(),
                batch@ == all.skip(done),
                self@ == old(self)@ + all.subrange(0, done),
            decreases batch@.len(),
        {
            match batch.pop_front() {
                Some(message) => {
                    self.incoming_messages.push_back(message);
                    proof {
                        done = done + 1;
                        assert(batch@ =~= all.skip(done));
                        assert(self@ =~= old(self)@ + all.subrange(0, done));
                    }
                },
                None => {},
            }
        }
        assert(all.subrange(0, done) =~= all);
        if taken.1 {
            Ok(())
        } else {
            Err(SerdeErr)
        }
    }

    /// Gives the messages that have arrived, in the order of their arrival.
    fn receive_messages(&mut self) -> (messages: Vec<P>)
        ensures
            messages@ == old(self)@,
            final(self)@ == Seq::<P>::empty(),
    {
        drain(&mut self.incoming_messages)
    }
}

} // verus!
