use vstd::prelude::*;
use crate::shared::types::MessageId;
use crate::wire::bit_reader::BitReader;
use crate::wire::bit_writer::BitWriter;
use crate::wire::error::SerdeErr;

verus! {

/// Writes one message of a channel.
///
/// The spec function names the bits of a message. An implementation
/// written outside the verifier leaves it as it is.
pub trait ChannelWriter<T> {
    /// The bits that stand for `data`.
    open spec fn bits(&self, data: &T) -> Seq<bool> {
        arbitrary()
    }

    /// Writes `data`: its bits follow what was written before.
    fn write(&self, writer: &mut BitWriter, data: &T)
        requires
            old(writer).wf(),
        ensures
            final(writer).wf(),
            final(writer)@ == old(writer)@ + self.bits(data),
    ;
}

/// Reads one message of a channel.
///
/// The spec function names what a sequence of bits holds. An implementation
/// written outside the verifier leaves it as it is.
pub trait ChannelReader<T> {
    /// The message that `input` begins with and the number of bits it
    /// takes, or nothing where `input` begins with no message.
    open spec fn parsed(&self, input: Seq<bool>) -> Option<(T, int)> {
        arbitrary()
    }

    /// Reads a message, or fails where the bits that are left begin with
    /// none.
    fn read(&self, reader: &mut BitReader) -> (read: Result<T, SerdeErr>)
        requires
            old(reader).wf(),
        ensures
            final(reader).wf(),
            match (self.parsed(old(reader)@), read) {
                (Some((value, used)), Ok(got)) => got == value && 0 <= used <= old(
                    reader,
                )@.len() && final(reader)@ == old(reader)@.skip(used),
                (None, Err(_)) => true,
                _ => false,
            },
    ;
}

/// The sending side of a message channel: one of the delivery disciplines.
/// Time is a number of milliseconds.
pub trait ChannelSender<P>: Send + Sync {
    /// Takes in a message to send.
    fn send_message(&mut self, message: P);

    /// Gathers the messages that are due at the time `now`, given the round
    /// trip time.
    fn collect_messages(&mut self, now: u64, rtt_millis: u32);

    /// Whether messages wait to be written.
    fn has_messages(&self) -> bool;

    /// Writes the messages that wait, and gives the identifiers of those
    /// written, where the channel keeps track of them.
    fn write_messages<W: ChannelWriter<P>>(
        &mut self,
        channel_writer: &W,
        bit_writer: &mut BitWriter,
    ) -> (written: Option<Vec<MessageId>>)
        requires
            old(bit_writer).wf(),
        ensures
            final(bit_writer).wf(),
    ;

    /// Takes note that the message `message_id` has arrived.
    fn notify_message_delivered(&mut self, message_id: &MessageId);
}

/// The receiving side of a message channel.
pub trait ChannelReceiver<P>: Send + Sync {
    /// Reads the messages of an incoming packet.
    fn read_messages<C: ChannelReader<P>>(&mut self, channel_reader: &C, reader: &mut BitReader) -> (read:
        Result<(), SerdeErr>)
        requires
            old(reader).wf(),
        ensures
            final(reader).wf(),
    ;

    /// Gives the messages that are ready for the application, in the order
    /// that the discipline of the channel calls for.
    fn receive_messages(&mut self) -> Vec<P>;
}

} // verus!
