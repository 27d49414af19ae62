use vstd::prelude::*;
use crate::shared::byte_io::put_u8;
use crate::shared::manager_type::{append_bytes, fits, has_room, section, ManagerType};
use crate::shared::manifest::{naia_id_of, Manifest};
use crate::shared::message_packet_writer::{message_bytes, MessagePacketWriter, MessageWriterView};
use crate::shared::replicate::Replicate;
use crate::shared::types::MTU_SIZE;

verus! {

/// What the server's packet writer holds: the messages, and the replication
/// actions written so far with their number.
pub struct WriterView {
    pub messages: MessageWriterView,
    pub action_bytes: Seq<u8>,
    pub action_count: u8,
}

impl WriterView {
    /// The number of bytes held, without the section headers.
    pub open spec fn bytes_number(self) -> int {
        (self.messages.bytes.len() + self.action_bytes.len()) as int
    }

    /// The payload that the writer gives: the section of the messages, then
    /// the section of the replication actions.
    pub open spec fn payload(self) -> Seq<u8> {
        section(ManagerType::Message, self.messages.count, self.messages.bytes) + section(
            ManagerType::Replicate,
            self.action_count,
            self.action_bytes,
        )
    }

    /// The writer after its payload was taken: the sections that were given
    /// start over.
    pub open spec fn taken(self) -> WriterView {
        WriterView {
            messages: if self.messages.count == 0 {
                self.messages
            } else {
                MessageWriterView { bytes: Seq::empty(), count: 0 }
            },
            action_bytes: if self.action_count == 0 {
                self.action_bytes
            } else {
                Seq::empty()
            },
            action_count: 0,
        }
    }
}

/// Gathers what goes into one packet from the server to a client: messages
/// and replication actions.
pub struct PacketWriter {
    message_writer: MessagePacketWriter,
    replicate_working_bytes: Vec<u8>,
    replicate_action_count: u8,
}

impl View for PacketWriter {
    type V = WriterView;

    closed spec fn view(&self) -> WriterView {
        WriterView {
            messages: self.message_writer@,
            action_bytes: self.replicate_working_bytes@,
            action_count: self.replicate_action_count,
        }
    }
}

impl PacketWriter {
    #[verifier::type_invariant]
    spec fn bounded(self) -> bool {
        self.replicate_working_bytes@.len() <= MTU_SIZE
    }

    /// What a writer holds that holds nothing.
    pub open spec fn empty_view() -> WriterView {
        WriterView {
            messages: MessageWriterView { bytes: Seq::empty(), count: 0 },
            action_bytes: Seq::empty(),
            action_count: 0,
        }
    }

    /// A writer that holds nothing.
    pub fn new() -> (writer: PacketWriter)
        ensures
            writer@ == PacketWriter::empty_view(),
    {
        PacketWriter {
            message_writer: MessagePacketWriter::new(),
            replicate_working_bytes: Vec::new(),
            replicate_action_count: 0,
        }
    }

    /// Whether the writer holds anything to send.
    pub fn has_bytes(&self) -> (has: bool)
        ensures
            has == (self@.messages.count != 0 || self@.action_count != 0),
    {
        self.message_writer.has_bytes() || self.replicate_action_count != 0
    }

    /// The number of replication actions held.
    pub fn replicate_action_count(&self) -> (count: u8)
        ensures
            count == self@.action_count,
    {
        self.replicate_action_count
    }

    /// The number of bytes held, without the section headers.
    pub fn bytes_number(&self) -> (number: usize)
        ensures
            number == self@.bytes_number(),
    {
        proof {
            use_type_invariant(self);
        }
        self.message_writer.bytes_number() + self.replicate_working_bytes.len()
    }

    /// Gives the payload of the packet and starts over.
    pub fn get_bytes(&mut self) -> (out_bytes: Vec<u8>)
        ensures
            out_bytes@ == old(self)@.payload(),
            final(self)@ == old(self)@.taken(),
    {
        proof {
            use_type_invariant(&*self);
        }
        let mut out_bytes: Vec<u8> = Vec::new();
        let mut messages = MessagePacketWriter::new();
        core::mem::swap(&mut messages, &mut self.message_writer);
        messages.get_bytes(&mut out_bytes);
        self.message_writer = messages;
        let ghost after_messages = out_bytes@;
        if self.replicate_action_count != 0 {
            put_u8(&mut out_bytes, ManagerType::Replicate.to_u8());
            put_u8(&mut out_bytes, self.replicate_action_count);
            append_bytes(&mut out_bytes, &self.replicate_working_bytes);
            self.replicate_working_bytes = Vec::new();
            self.replicate_action_count = 0;
        }
        assert(out_bytes@ =~= old(self)@.payload());
        out_bytes
    }

    /// Writes a message into the packet, if it has room, and says whether it
    /// did.
    pub fn write_message<R: Replicate>(&mut self, manifest: &Manifest, message: &R) -> (wrote: bool)
        requires
            naia_id_of(manifest@, message.type_id()) is Some,
        ensures
            wrote == has_room(
                old(self)@.messages.bytes.len() as int,
                message_bytes(manifest@, *message).len() as int,
                old(self)@.messages.count,
            ),
            final(self)@ == (if wrote {
                WriterView {
                    messages: MessageWriterView {
                        bytes: old(self)@.messages.bytes + message_bytes(manifest@, *message),
                        count: (old(self)@.messages.count + 1) as u8,
                    },
                    ..old(self)@
                }
            } else {
                old(self)@
            }),
    {
        proof {
            use_type_invariant(&*self);
        }
        let mut messages = MessagePacketWriter::new();
        core::mem::swap(&mut messages, &mut self.message_writer);
        let wrote = messages.write_message(manifest, message);
        self.message_writer = messages;
        wrote
    }

    /// Adds a replication action of `bytes` bytes to those held, if it has
    /// room, and says whether it did: the payload does not exceed the limit
    /// of a packet, and at most 255 actions go into one.
    pub fn write_action_bytes(&mut self, bytes: &Vec<u8>) -> (wrote: bool)
        ensures
            wrote == has_room(old(self)@.bytes_number(), bytes@.len() as int, old(self)@.action_count),
            final(self)@ == (if wrote {
                WriterView {
                    action_bytes: old(self)@.action_bytes + bytes@,
                    action_count: (old(self)@.action_count + 1) as u8,
                    ..old(self)@
                }
            } else {
                old(self)@
            }),
    {
        proof {
            use_type_invariant(&*self);
        }
        if fits(self.bytes_number(), bytes.len(), self.replicate_action_count) {
            let mut working: Vec<u8> = Vec::new();
            append_bytes(&mut working, &self.replicate_working_bytes);
            append_bytes(&mut working, bytes);
            assert(working@ =~= self.replicate_working_bytes@ + bytes@);
            self.replicate_working_bytes = working;
            self.replicate_action_count = self.replicate_action_count + 1;
            true
        } else {
            false
        }
    }
}

} // verus!
