use vstd::prelude::*;
use crate::client::event::PawnKey;
use crate::shared::byte_io::{be_bytes, put_u16, put_u8};
use crate::shared::manager_type::{append_bytes, fits, has_room, section, ManagerType};
use crate::shared::manifest::{naia_id_of, Manifest};
use crate::shared::message_packet_writer::{message_bytes, MessagePacketWriter, MessageWriterView};
use crate::shared::replicate::Replicate;
use crate::shared::types::MTU_SIZE;
use crate::shared::wrapping::{wrapping_diff, wrapping_distance};
use std::rc::Rc;

verus! {

/// The most past commands that go along with a command.
pub const MAX_PAST_COMMANDS: u8 = 3;

/// What the client's packet writer holds: the commands written so far with
/// their number, and the messages.
pub struct WriterView {
    pub command_bytes: Seq<u8>,
    pub command_count: u8,
    pub messages: MessageWriterView,
}

impl WriterView {
    /// The number of bytes held, without the section headers.
    pub open spec fn bytes_number(self) -> int {
        (self.command_bytes.len() + self.messages.bytes.len()) as int
    }

    /// The payload that the writer gives: the section of the commands, then
    /// the section of the messages.
    pub open spec fn payload(self) -> Seq<u8> {
        section(ManagerType::Command, self.command_count, self.command_bytes) + section(
            ManagerType::Message,
            self.messages.count,
            self.messages.bytes,
        )
    }

    /// The writer after its payload was taken.
    pub open spec fn taken(self) -> WriterView {
        WriterView {
            command_bytes: if self.command_count == 0 {
                self.command_bytes
            } else {
                Seq::empty()
            },
            command_count: 0,
            messages: if self.messages.count == 0 {
                self.messages
            } else {
                MessageWriterView { bytes: Seq::empty(), count: 0 }
            },
        }
    }
}

/// Whether a past command of the tick `past_tick` goes along with a command
/// of the tick `host_tick`: it lies at least 1 and at most 255 ticks back.
pub open spec fn goes_along(host_tick: u16, past_tick: u16) -> bool {
    0 < wrapping_distance(host_tick, past_tick) <= 255
}

/// The past commands that go along with a command of the tick `host_tick`,
/// as bytes: from position `from` of the history on, the first `room` that
/// lie 1 to 255 ticks back, each as the number of ticks it lies back and its
/// payload.
pub open spec fn past_bytes<R: Replicate>(
    history: Seq<(u16, Rc<R>)>,
    host_tick: u16,
    from: int,
    room: int,
) -> Seq<u8>
    decreases history.len() - from,
{
    if room <= 0 || from < 0 || from >= history.len() {
        Seq::empty()
    } else if goes_along(host_tick, history[from].0) {
        seq![wrapping_distance(host_tick, history[from].0) as u8] + history[from].1.payload()
            + past_bytes(history, host_tick, from + 1, room - 1)
    } else {
        past_bytes(history, host_tick, from + 1, room)
    }
}

/// The number of the past commands that go along.
pub open spec fn past_count<R: Replicate>(
    history: Seq<(u16, Rc<R>)>,
    host_tick: u16,
    from: int,
    room: int,
) -> int
    decreases history.len() - from,
{
    if room <= 0 || from < 0 || from >= history.len() {
        0
    } else if goes_along(host_tick, history[from].0) {
        1 + past_count(history, host_tick, from + 1, room - 1)
    } else {
        past_count(history, host_tick, from + 1, room)
    }
}

/// The room for past commands beside a command with the given history.
pub open spec fn past_room<R>(history: Seq<(u16, Rc<R>)>) -> int {
    if history.len() < 3 {
        history.len() as int
    } else {
        3
    }
}

/// A command on the wire: the kind of pawn, the pawn's key, the identifier
/// of the command's type, the number of past commands, the command's
/// payload, and the past commands.
pub open spec fn command_bytes<R: Replicate>(
    manifest: Seq<u64>,
    host_tick: u16,
    history: Seq<(u16, Rc<R>)>,
    pawn_key: PawnKey,
    command: R,
) -> Seq<u8> {
    seq![pawn_key.kind_byte()] + be_bytes(pawn_key.number()) + be_bytes(
        naia_id_of(manifest, command.type_id()).unwrap(),
    ) + seq![past_count(history, host_tick, 0, past_room(history)) as u8] + command.payload()
        + past_bytes(history, host_tick, 0, past_room(history))
}

/// Gathers what goes into one packet from the client to the server: commands
/// and messages.
pub struct PacketWriter {
    command_working_bytes: Vec<u8>,
    command_count: u8,
    message_writer: MessagePacketWriter,
}

impl View for PacketWriter {
    type V = WriterView;

    closed spec fn view(&self) -> WriterView {
        WriterView {
            command_bytes: self.command_working_bytes@,
            command_count: self.command_count,
            messages: self.message_writer@,
        }
    }
}

impl PacketWriter {
    #[verifier::type_invariant]
    spec fn bounded(self) -> bool {
        self.command_working_bytes@.len() <= MTU_SIZE
    }

    /// A writer that holds nothing.
    pub fn new() -> (writer: PacketWriter)
        ensures
            writer@ == (WriterView {
                command_bytes: Seq::empty(),
                command_count: 0,
                messages: MessageWriterView { bytes: Seq::empty(), count: 0 },
            }),
    {
        PacketWriter {
            command_working_bytes: Vec::new(),
            command_count: 0,
            message_writer: MessagePacketWriter::new(),
        }
    }

    /// Whether the writer holds anything to send.
    pub fn has_bytes(&self) -> (has: bool)
        ensures
            has == (self@.command_count != 0 || self@.messages.count != 0),
    {
        self.command_count != 0 || self.message_writer.has_bytes()
    }

    /// Gives the payload of the packet and starts over.
    pub fn get_bytes(&mut self) -> (out_bytes: Vec<u8>)
        ensures
            out_bytes@ == old(self)@.payload(),
            final(self)@ == old(self)@.taken(),
    {
        proof {
            use_type_invariant(&*self);
        }
        let mut out_bytes: Vec<u8> = Vec::new();
        if self.command_count != 0 {
            put_u8(&mut out_bytes, ManagerType::Command.to_u8());
            put_u8(&mut out_bytes, self.command_count);
            append_bytes(&mut out_bytes, &self.command_working_bytes);
            self.command_working_bytes = Vec::new();
            self.command_count = 0;
        }
        let mut messages = MessagePacketWriter::new();
        core::mem::swap(&mut messages, &mut self.message_writer);
        messages.get_bytes(&mut out_bytes);
        self.message_writer = messages;
        assert(out_bytes@ =~= old(self)@.payload());
        out_bytes
    }

    /// The number of bytes held, without the section headers.
    pub fn bytes_number(&self) -> (number: usize)
        ensures
            number == self@.bytes_number(),
    {
        proof {
            use_type_invariant(self);
        }
        self.command_working_bytes.len() + self.message_writer.bytes_number()
    }

    /// Writes a command for a pawn into the packet, if it has room, and says
    /// whether it did. Up to three past commands of the pawn go along, so
    /// that the server can make up for a lost packet: `history` holds the
    /// pawn's past commands with their ticks, the latest first, and those go
    /// along that lie 1 to 255 ticks before `host_tick`. The command has
    /// room where the payload does not exceed the limit of a packet, counting
    /// two bytes for the section header with the first command, and where
    /// the packet holds fewer than 255 commands.
    pub fn write_command<R: Replicate>(
        &mut self,
        host_tick: u16,
        manifest: &Manifest,
        history: &Vec<(u16, Rc<R>)>,
        pawn_key: &PawnKey,
        command: &R,
    ) -> (wrote: bool)
        requires
            naia_id_of(manifest@, command.type_id()) is Some,
        ensures
            wrote == has_room(
                old(self)@.bytes_number(),
                command_bytes(manifest@, host_tick, history@, *pawn_key, *command).len() as int,
                old(self)@.command_count,
            ),
            final(self)@ == (if wrote {
                WriterView {
                    command_bytes: old(self)@.command_bytes + command_bytes(
                        manifest@,
                        host_tick,
                        history@,
                        *pawn_key,
                        *command,
                    ),
                    command_count: (old(self)@.command_count + 1) as u8,
                    ..old(self)@
                }
            } else {
                old(self)@
            }),
    {
        proof {
            use_type_invariant(&*self);
        }
        let mut command_payload_bytes: Vec<u8> = Vec::new();
        command.write(&mut command_payload_bytes);
        let ghost own = command_payload_bytes@;

        let past_commands_number: u8 = if history.len() < MAX_PAST_COMMANDS as usize {
            history.len() as u8
        } else {
            MAX_PAST_COMMANDS
        };
        let mut past_command_index: u8 = 0;
        let mut i: usize = 0;
        assert(command_payload_bytes@ =~= own + Seq::<u8>::empty());
        let ghost mut written: Seq<u8> = Seq::empty();
        while past_command_index < past_commands_number && i < history.len()
            invariant
                i <= history@.len(),
                past_command_index <= past_commands_number <= 3,
                past_commands_number as int == past_room(history@),
                command_payload_bytes@ == own + written,
                written + past_bytes(
                    history@,
                    host_tick,
                    i as int,
                    past_commands_number - past_command_index,
                ) == past_bytes(history@, host_tick, 0, past_commands_number as int),
                past_command_index + past_count(
                    history@,
                    host_tick,
                    i as int,
                    past_commands_number - past_command_index,
                ) == past_count(history@, host_tick, 0, past_commands_number as int),
            decreases history@.len() - i,
        {
            let past_tick = history[i].0;
            let diff: i16 = wrapping_diff(host_tick, past_tick);
            let ghost rest_before = past_bytes(
                history@,
                host_tick,
                i as int,
                past_commands_number - past_command_index,
            );
            if diff > 0 && diff <= 255 {
                put_u8(&mut command_payload_bytes, diff as u8);
                history[i].1.write(&mut command_payload_bytes);
                past_command_index += 1;
                proof {
                    let added = seq![diff as u8] + history@[i as int].1.payload();
                    let rest_after = past_bytes(
                        history@,
                        host_tick,
                        i as int + 1,
                        past_commands_number - past_command_index,
                    );
                    assert(rest_before == added + rest_after);
                    assert((written + added) + rest_after =~= written + rest_before);
                    assert(command_payload_bytes@ =~= own + (written + added));
                    written = written + added;
                }
            }
            i += 1;
        }
        proof {
            assert(past_bytes(
                history@,
                host_tick,
                i as int,
                past_commands_number - past_command_index,
            ) =~= Seq::<u8>::empty());
            assert(written =~= past_bytes(history@, host_tick, 0, past_commands_number as int));
        }

        let mut command_total_bytes: Vec<u8> = Vec::new();
        match pawn_key {
            PawnKey::Object(_) => {
                put_u8(&mut command_total_bytes, 0);
            },
            PawnKey::Entity(_) => {
                put_u8(&mut command_total_bytes, 255);
            },
        }
        put_u16(&mut command_total_bytes, pawn_key.to_u16());
        let type_id = command.get_type_id();
        let naia_id = match manifest.get_naia_id(&type_id) {
            Some(naia_id) => naia_id,
            None => 0,
        };
        put_u16(&mut command_total_bytes, naia_id);
        put_u8(&mut command_total_bytes, past_command_index);
        append_bytes(&mut command_total_bytes, &command_payload_bytes);
        assert(command_total_bytes@ =~= command_bytes(
            manifest@,
            host_tick,
            history@,
            *pawn_key,
            *command,
        ));

        if fits(self.bytes_number(), command_total_bytes.len(), self.command_count) {
            let mut working: Vec<u8> = Vec::new();
            append_bytes(&mut working, &self.command_working_bytes);
            append_bytes(&mut working, &command_total_bytes);
            assert(working@ =~= self.command_working_bytes@ + command_total_bytes@);
            self.command_working_bytes = working;
            self.command_count = self.command_count + 1;
            true
        } else {
            false
        }
    }

    /// Writes a message into the packet, if it has room, and says whether it
    /// did.
    pub fn write_message<R: Replicate>(&mut self, manifest: &Manifest, message: &R) -> (wrote: bool)
        requires
            naia_id_of(manifest@, message.type_id()) is Some,
        ensures
            wrote == has_room(
                old(self)@.messages.bytes.len() as int,
                message_bytes(manifest@, *message).len() as int,
                old(self)@.messages.count,
            ),
            final(self)@ == (if wrote {
                WriterView {
                    messages: MessageWriterView {
                        bytes: old(self)@.messages.bytes + message_bytes(manifest@, *message),
                        count: (old(self)@.messages.count + 1) as u8,
                    },
                    ..old(self)@
                }
            } else {
                old(self)@
            }),
    {
        proof {
            use_type_invariant(&*self);
        }
        let mut messages = MessagePacketWriter::new();
        core::mem::swap(&mut messages, &mut self.message_writer);
        let wrote = messages.write_message(manifest, message);
        self.message_writer = messages;
        wrote
    }
}

} // verus!
