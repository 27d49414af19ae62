use vstd::prelude::*;
use crate::shared::byte_io::{be_bytes, put_u16, put_u8};
use crate::shared::manager_type::{append_bytes, fits, has_room, section, ManagerType};
use crate::shared::manifest::{naia_id_of, Manifest};
use crate::shared::replicate::Replicate;
use crate::shared::types::MTU_SIZE;

verus! {

/// What a message writer holds: the messages written so far, and their number.
pub struct MessageWriterView {
    pub bytes: Seq<u8>,
    pub count: u8,
}

/// A message on the wire: the identifier of its type, then its payload.
pub open spec fn message_bytes<R: Replicate>(manifest: Seq<u64>, message: R) -> Seq<u8> {
    be_bytes(naia_id_of(manifest, message.type_id()).unwrap()) + message.payload()
}

/// Forms a message as it goes on the wire: the two bytes of the identifier
/// of its type, the more significant first, then its payload.
pub fn encode_message<R: Replicate>(manifest: &Manifest, message: &R) -> (bytes: Vec<u8>)
    requires
        naia_id_of(manifest@, message.type_id()) is Some,
    ensures
        bytes@ == message_bytes(manifest@, *message),
{
    let mut bytes: Vec<u8> = Vec::new();
    let type_id = message.get_type_id();
    let naia_id = match manifest.get_naia_id(&type_id) {
        Some(naia_id) => naia_id,
        None => 0,
    };
    put_u16(&mut bytes, naia_id);
    message.write(&mut bytes);
    assert(bytes@ =~= message_bytes(manifest@, *message));
    bytes
}

/// Gathers the messages that go into one outgoing packet.
pub struct MessagePacketWriter {
    message_working_bytes: Vec<u8>,
    message_count: u8,
}

impl View for MessagePacketWriter {
    type V = MessageWriterView;

    closed spec fn view(&self) -> MessageWriterView {
        MessageWriterView { bytes: self.message_working_bytes@, count: self.message_count }
    }
}

impl MessagePacketWriter {
    #[verifier::type_invariant]
    spec fn bounded(self) -> bool {
        self.message_working_bytes@.len() <= MTU_SIZE
    }

    /// A writer that holds nothing.
    pub fn new() -> (writer: MessagePacketWriter)
        ensures
            writer@ == (MessageWriterView { bytes: Seq::empty(), count: 0 }),
    {
        MessagePacketWriter { message_working_bytes: Vec::new(), message_count: 0 }
    }

    /// Whether the writer holds a message.
    pub fn has_bytes(&self) -> (has: bool)
        ensures
            has == (self@.count != 0),
    {
        self.message_count != 0
    }

    /// The number of bytes of the messages held; it does not exceed the
    /// limit of a packet.
    pub fn bytes_number(&self) -> (number: usize)
        ensures
            number == self@.bytes.len(),
            number <= MTU_SIZE,
    {
        proof {
            use_type_invariant(self);
        }
        self.message_working_bytes.len()
    }

    /// Appends the section of the messages to `out_bytes`, and starts over
    /// with the count. A writer without messages appends nothing.
    pub fn get_bytes(&mut self, out_bytes: &mut Vec<u8>)
        ensures
            final(out_bytes)@ == old(out_bytes)@ + section(
                ManagerType::Message,
                old(self)@.count,
                old(self)@.bytes,
            ),
            final(self)@ == (if old(self)@.count == 0 {
                old(self)@
            } else {
                MessageWriterView { bytes: Seq::empty(), count: 0 }
            }),
    {
        if self.message_count != 0 {
            put_u8(out_bytes, ManagerType::Message.to_u8());
            put_u8(out_bytes, self.message_count);
            append_bytes(out_bytes, &self.message_working_bytes);
            self.message_working_bytes = Vec::new();
            self.message_count = 0;
            assert(out_bytes@ =~= old(out_bytes)@ + section(
                ManagerType::Message,
                old(self)@.count,
                old(self)@.bytes,
            ));
        } else {
            assert(out_bytes@ =~= old(out_bytes)@ + section(
                ManagerType::Message,
                old(self)@.count,
                old(self)@.bytes,
            ));
        }
    }

    /// Adds a message of `bytes` bytes to those held, if it has room beside
    /// `others` bytes that the packet holds for other sections, and says
    /// whether it did.
    pub fn write_bytes(&mut self, others: usize, bytes: &Vec<u8>) -> (wrote: bool)
        requires
            others <= MTU_SIZE,
        ensures
            wrote == has_room(others + old(self)@.bytes.len(), bytes@.len() as int, old(self)@.count),
            final(self)@ == (if wrote {
                MessageWriterView {
                    bytes: old(self)@.bytes + bytes@,
                    count: (old(self)@.count + 1) as u8,
                }
            } else {
                old(self)@
            }),
    {
        proof {
            use_type_invariant(&*self);
        }
        if fits(others + self.message_working_bytes.len(), bytes.len(), self.message_count) {
            let mut working: Vec<u8> = Vec::new();
            append_bytes(&mut working, &self.message_working_bytes);
            append_bytes(&mut working, bytes);
            assert(working@ =~= self.message_working_bytes@ + bytes@);
            self.message_working_bytes = working;
            self.message_count = self.message_count + 1;
            true
        } else {
            false
        }
    }

    /// Writes a message into the packet, if it has room, and says whether it
    /// did.
    pub fn write_message<R: Replicate>(&mut self, manifest: &Manifest, message: &R) -> (wrote: bool)
        requires
            naia_id_of(manifest@, message.type_id()) is Some,
        ensures
            wrote == has_room(
                old(self)@.bytes.len() as int,
                message_bytes(manifest@, *message).len() as int,
                old(self)@.count,
            ),
            final(self)@ == (if wrote {
                MessageWriterView {
                    bytes: old(self)@.bytes + message_bytes(manifest@, *message),
                    count: (old(self)@.count + 1) as u8,
                }
            } else {
                old(self)@
            }),
    {
        let message_total_bytes = encode_message(manifest, message);
        self.write_bytes(0, &message_total_bytes)
    }
}

} // verus!
