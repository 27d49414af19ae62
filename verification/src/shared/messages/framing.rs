use vstd::prelude::*;
use crate::shared::message_channel::{ChannelReader, ChannelWriter};
use crate::shared::types::MessageId;
use crate::wire::bit_reader::BitReader;
use crate::wire::bit_writer::BitWriter;
use crate::wire::bits::lemma_low_bits_len;
use crate::wire::serde::{lemma_u16_round_trips, Serde};
use std::collections::VecDeque;

verus! {

/// What a list of messages on the wire holds: the messages that are read
/// before the list ends or the reading fails, and the number of bits that
/// the list takes, where it is whole.
pub struct Batch<T> {
    pub items: Seq<T>,
    pub used: Option<int>,
}

impl<T> Batch<T> {
    /// A list that breaks off at once.
    pub open spec fn broken() -> Batch<T> {
        Batch { items: Seq::empty(), used: None }
    }

    /// The list with `item` before it, which takes `bits` bits.
    pub open spec fn after(self, item: T, bits: int) -> Batch<T> {
        Batch {
            items: seq![item] + self.items,
            used: match self.used {
                Some(used) => Some(bits + used),
                None => None,
            },
        }
    }
}

/// The bits of the messages of a list: each message follows a set bit.
pub open spec fn plain_items<P, W: ChannelWriter<P>>(writer: &W, messages: Seq<P>) -> Seq<bool>
    decreases messages.len(),
{
    if messages.len() == 0 {
        Seq::empty()
    } else {
        seq![true] + writer.bits(&messages[0]) + plain_items(writer, messages.drop_first())
    }
}

/// The bits of a list of messages: each message follows a set bit, and a
/// clear bit ends the list.
pub open spec fn plain_bits<P, W: ChannelWriter<P>>(writer: &W, messages: Seq<P>) -> Seq<bool> {
    plain_items(writer, messages) + seq![false]
}

/// The bits of the messages of a list with identifiers: each message
/// follows a set bit and the 16 bits of its identifier.
pub open spec fn tagged_items<P, W: ChannelWriter<P>>(writer: &W, messages: Seq<(MessageId, P)>) -> Seq<
    bool,
>
    decreases messages.len(),
{
    if messages.len() == 0 {
        Seq::empty()
    } else {
        seq![true] + messages[0].0.bits() + writer.bits(&messages[0].1) + tagged_items(
            writer,
            messages.drop_first(),
        )
    }
}

/// The bits of a list of messages with identifiers: each message follows a
/// set bit and the 16 bits of its identifier, and a clear bit ends the list.
pub open spec fn tagged_bits<P, W: ChannelWriter<P>>(writer: &W, messages: Seq<(MessageId, P)>) -> Seq<
    bool,
> {
    tagged_items(writer, messages) + seq![false]
}

/// What `input` holds as a list of messages. The list breaks off where no
/// bit is left for the mark that a message follows, or where the bits after
/// a set mark begin with no message.
pub open spec fn plain_batch<P, C: ChannelReader<P>>(reader: &C, input: Seq<bool>) -> Batch<P>
    decreases input.len(),
{
    if input.len() == 0 {
        Batch::broken()
    } else if !input[0] {
        Batch { items: Seq::empty(), used: Some(1) }
    } else {
        match reader.parsed(input.skip(1)) {
            Some((message, used)) => {
                if 0 <= used <= input.len() - 1 {
                    plain_batch(reader, input.skip(1 + used)).after(message, 1 + used)
                } else {
                    Batch::broken()
                }
            },
            None => Batch::broken(),
        }
    }
}

/// What `input` holds as a list of messages with identifiers. The list
/// breaks off where no bit is left for the mark that a message follows,
/// where fewer than 16 bits are left for an identifier, or where the bits
/// after an identifier begin with no message.
pub open spec fn tagged_batch<P, C: ChannelReader<P>>(reader: &C, input: Seq<bool>) -> Batch<
    (MessageId, P),
>
    decreases input.len(),
{
    if input.len() == 0 {
        Batch::broken()
    } else if !input[0] {
        Batch { items: Seq::empty(), used: Some(1) }
    } else {
        match u16::parsed(input.skip(1)) {
            Some((id, _)) => {
                match reader.parsed(input.skip(17)) {
                    Some((message, used)) => {
                        if 0 <= used <= input.len() - 17 {
                            tagged_batch(reader, input.skip(17 + used)).after((id, message), 17 + used)
                        } else {
                            Batch::broken()
                        }
                    },
                    None => Batch::broken(),
                }
            },
            None => Batch::broken(),
        }
    }
}

/// Reads a list of messages, and says whether the list is whole. The
/// messages read before the list ends or breaks off are given, the oldest
/// first.
pub fn read_plain<P, C: ChannelReader<P>>(channel_reader: &C, reader: &mut BitReader) -> (read: (
    VecDeque<P>,
    bool,
))
    requires
        old(reader).wf(),
    ensures
        final(reader).wf(),
        read.0@ == plain_batch(channel_reader, old(reader)@).items,
        read.1 == (plain_batch(channel_reader, old(reader)@).used is Some),
        read.1 ==> final(reader)@ == old(reader)@.skip(
            plain_batch(channel_reader, old(reader)@).used.unwrap(),
        ),
{
    let mut messages: VecDeque<P> = VecDeque::new();
    let ghost whole = plain_batch(channel_reader, old(reader)@);
    let ghost mut consumed: int = 0;
    proof {
        assert(reader@ =~= old(reader)@.skip(0));
        assert(messages@ + whole.items =~= whole.items);
    }
    loop
        invariant
            reader.wf(),
            0 <= consumed <= old(reader)@.len(),
            reader@ == old(reader)@.skip(consumed),
            whole == plain_batch(channel_reader, old(reader)@),
            whole.items == messages@ + plain_batch(channel_reader, reader@).items,
            whole.used == (match plain_batch(channel_reader, reader@).used {
                Some(used) => Some(consumed + used),
                None => None,
            }),
        decreases reader@.len(),
    {
        let ghost here = reader@;
        let ghost before = messages@;
        let another = match reader.read_bit() {
            Ok(another) => another,
            Err(_) => {
                assert(messages@ + Seq::<P>::empty() =~= messages@);
                return (messages, false);
            },
        };
        if !another {
            proof {
                assert(messages@ + Seq::<P>::empty() =~= messages@);
                assert(reader@ =~= old(reader)@.skip(consumed + 1));
            }
            return (messages, true);
        }
        assert(reader@ =~= here.skip(1));
        let message = match channel_reader.read(reader) {
            Ok(message) => message,
            Err(_) => {
                assert(messages@ + Seq::<P>::empty() =~= messages@);
                return (messages, false);
            },
        };
        proof {
            let used = channel_reader.parsed(here.skip(1)).unwrap().1;
            assert(reader@ =~= here.skip(1 + used));
            assert(reader@ =~= old(reader)@.skip(consumed + 1 + used));
            let rest = plain_batch(channel_reader, reader@);
            assert(before + (seq![message] + rest.items) =~= before.push(message) + rest.items);
            consumed = consumed + 1 + used;
        }
        messages.push_back(message);
    }
}

/// Reads a list of messages with identifiers, and says whether the list is
/// whole. The messages read before the list ends or breaks off are given,
/// the oldest first.
pub fn read_tagged<P, C: ChannelReader<P>>(channel_reader: &C, reader: &mut BitReader) -> (read: (
    VecDeque<(MessageId, P)>,
    bool,
))
    requires
        old(reader).wf(),
    ensures
        final(reader).wf(),
        read.0@ == tagged_batch(channel_reader, old(reader)@).items,
        read.1 == (tagged_batch(channel_reader, old(reader)@).used is Some),
        read.1 ==> final(reader)@ == old(reader)@.skip(
            tagged_batch(channel_reader, old(reader)@).used.unwrap(),
        ),
{
    let mut messages: VecDeque<(MessageId, P)> = VecDeque::new();
    let ghost whole = tagged_batch(channel_reader, old(reader)@);
    let ghost mut consumed: int = 0;
    proof {
        assert(reader@ =~= old(reader)@.skip(0));
        assert(messages@ + whole.items =~= whole.items);
    }
    loop
        invariant
            reader.wf(),
            0 <= consumed <= old(reader)@.len(),
            reader@ == old(reader)@.skip(consumed),
            whole == tagged_batch(channel_reader, old(reader)@),
            whole.items == messages@ + tagged_batch(channel_reader, reader@).items,
            whole.used == (match tagged_batch(channel_reader, reader@).used {
                Some(used) => Some(consumed + used),
                None => None,
            }),
        decreases reader@.len(),
    {
        let ghost here = reader@;
        let ghost before = messages@;
        let another = match reader.read_bit() {
            Ok(another) => another,
            Err(_) => {
                assert(messages@ + Seq::<(MessageId, P)>::empty() =~= messages@);
                return (messages, false);
            },
        };
        if !another {
            proof {
                assert(messages@ + Seq::<(MessageId, P)>::empty() =~= messages@);
                assert(reader@ =~= old(reader)@.skip(consumed + 1));
            }
            return (messages, true);
        }
        assert(reader@ =~= here.skip(1));
        let message_id = match u16::de(reader) {
            Ok(message_id) => message_id,
            Err(_) => {
                assert(messages@ + Seq::<(MessageId, P)>::empty() =~= messages@);
                return (messages, false);
            },
        };
        assert(reader@ =~= here.skip(17));
        let message = match channel_reader.read(reader) {
            Ok(message) => message,
            Err(_) => {
                assert(messages@ + Seq::<(MessageId, P)>::empty() =~= messages@);
                return (messages, false);
            },
        };
        proof {
            let used = channel_reader.parsed(here.skip(17)).unwrap().1;
            assert(reader@ =~= here.skip(17 + used));
            assert(reader@ =~= old(reader)@.skip(consumed + 17 + used));
            let rest = tagged_batch(channel_reader, reader@);
            assert(before + (seq![(message_id, message)] + rest.items) =~= before.push(
                (message_id, message),
            ) + rest.items);
            consumed = consumed + 17 + used;
        }
        messages.push_back((message_id, message));
    }
}

/// The bits of a list with one more message are the bits of the list, then
/// a set bit and the bits of the message.
pub proof fn lemma_plain_items_push<P, W: ChannelWriter<P>>(writer: &W, messages: Seq<P>, message: P)
    ensures
        plain_items(writer, messages.push(message)) == plain_items(writer, messages) + seq![true]
            + writer.bits(&message),
    decreases messages.len(),
{
    let more = messages.push(message);
    if messages.len() == 0 {
        assert(more.drop_first() =~= Seq::<P>::empty());
        assert(plain_items(writer, more.drop_first()) =~= Seq::<bool>::empty());
        assert(more[0] == message);
        assert(plain_items(writer, more) =~= seq![true] + writer.bits(&message));
        assert(plain_items(writer, messages) + seq![true] + writer.bits(&message) =~= seq![true]
            + writer.bits(&message));
    } else {
        lemma_plain_items_push(writer, messages.drop_first(), message);
        assert(more.drop_first() =~= messages.drop_first().push(message));
        assert(plain_items(writer, more) =~= plain_items(writer, messages) + seq![true]
            + writer.bits(&message));
    }
}

/// The bits of a list with one more message are the bits of the list, then
/// a set bit, the identifier and the bits of the message.
pub proof fn lemma_tagged_items_push<P, W: ChannelWriter<P>>(
    writer: &W,
    messages: Seq<(MessageId, P)>,
    id: MessageId,
    message: P,
)
    ensures
        tagged_items(writer, messages.push((id, message))) == tagged_items(writer, messages)
            + seq![true] + id.bits() + writer.bits(&message),
    decreases messages.len(),
{
    let more = messages.push((id, message));
    if messages.len() == 0 {
        assert(more.drop_first() =~= Seq::<(MessageId, P)>::empty());
        assert(tagged_items(writer, more.drop_first()) =~= Seq::<bool>::empty());
        assert(more[0] == (id, message));
        assert(tagged_items(writer, more) =~= seq![true] + id.bits() + writer.bits(&message));
        assert(tagged_items(writer, messages) + seq![true] + id.bits() + writer.bits(&message)
            =~= seq![true] + id.bits() + writer.bits(&message));
    } else {
        lemma_tagged_items_push(writer, messages.drop_first(), id, message);
        assert(more.drop_first() =~= messages.drop_first().push((id, message)));
        assert(tagged_items(writer, more) =~= tagged_items(writer, messages) + seq![true]
            + id.bits() + writer.bits(&message));
    }
}

/// Whether the reader reads back what the writer writes of `message`,
/// whatever follows.
pub open spec fn reads_back<P, W: ChannelWriter<P>, C: ChannelReader<P>>(
    writer: &W,
    reader: &C,
    message: P,
) -> bool {
    forall|tail: Seq<bool>| #[trigger]
        reader.parsed(writer.bits(&message) + tail) == Some(
            (message, writer.bits(&message).len() as int),
        )
}

/// A list of messages that is written is read back as the same messages in
/// the same order, and takes the bits that were written: this holds where
/// the reader reads back each message by itself.
pub proof fn lemma_plain_round_trip<P, W: ChannelWriter<P>, C: ChannelReader<P>>(
    writer: &W,
    reader: &C,
    messages: Seq<P>,
    tail: Seq<bool>,
)
    requires
        forall|i: int| 0 <= i < messages.len() ==> reads_back(writer, reader, #[trigger] messages[i]),
    ensures
        plain_batch(reader, plain_bits(writer, messages) + tail) == (Batch {
            items: messages,
            used: Some(plain_bits(writer, messages).len() as int),
        }),
    decreases messages.len(),
{
    let input = plain_bits(writer, messages) + tail;
    if messages.len() == 0 {
        assert(plain_batch(reader, input).items =~= messages);
    } else {
        let first = messages[0];
        let rest = messages.drop_first();
        let own = writer.bits(&first);
        let after = plain_bits(writer, rest) + tail;
        assert(reads_back(writer, reader, first));
        assert(input.skip(1) =~= own + after);
        assert(input.skip(1 + own.len() as int) =~= after);
        assert forall|i: int| 0 <= i < rest.len() implies reads_back(
            writer,
            reader,
            #[trigger] rest[i],
        ) by {
            assert(rest[i] == messages[i + 1]);
        }
        lemma_plain_round_trip(writer, reader, rest, tail);
        assert(seq![first] + rest =~= messages);
    }
}

/// A list of messages with identifiers that is written is read back as the
/// same messages under the same identifiers in the same order, and takes
/// the bits that were written: this holds where the reader reads back each
/// message by itself.
pub proof fn lemma_tagged_round_trip<P, W: ChannelWriter<P>, C: ChannelReader<P>>(
    writer: &W,
    reader: &C,
    messages: Seq<(MessageId, P)>,
    tail: Seq<bool>,
)
    requires
        forall|i: int|
            0 <= i < messages.len() ==> reads_back(writer, reader, (#[trigger] messages[i]).1),
    ensures
        tagged_batch(reader, tagged_bits(writer, messages) + tail) == (Batch {
            items: messages,
            used: Some(tagged_bits(writer, messages).len() as int),
        }),
    decreases messages.len(),
{
    let input = tagged_bits(writer, messages) + tail;
    if messages.len() == 0 {
        assert(tagged_batch(reader, input).items =~= messages);
    } else {
        let id = messages[0].0;
        let first = messages[0].1;
        let rest = messages.drop_first();
        let own = writer.bits(&first);
        let after = tagged_bits(writer, rest) + tail;
        lemma_u16_round_trips(id);
        lemma_low_bits_len(id as nat, 16);
        assert(reads_back(writer, reader, first));
        assert(input.skip(1) =~= id.bits() + (own + after));
        assert(input.skip(17) =~= own + after);
        assert(input.skip(17 + own.len() as int) =~= after);
        assert forall|i: int| 0 <= i < rest.len() implies reads_back(
            writer,
            reader,
            (#[trigger] rest[i]).1,
        ) by {
            assert(rest[i] == messages[i + 1]);
        }
        lemma_tagged_round_trip(writer, reader, rest, tail);
        assert(seq![(id, first)] + rest =~= messages);
    }
}

} // verus!
