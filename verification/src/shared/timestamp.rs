use vstd::prelude::*;
use crate::shared::byte_io::{be_bytes, be_value, get_u16, lemma_be_round_trip, put_u16};

verus! {

/// The moment at which a client began its handshake, as twelve bytes: six
/// words of two bytes, the most significant first. It tells the handshake
/// attempts of one client apart.
#[derive(PartialEq, Eq, Structural, Clone, Copy, Debug)]
pub struct Timestamp {
    pub word0: u16,
    pub word1: u16,
    pub word2: u16,
    pub word3: u16,
    pub word4: u16,
    pub word5: u16,
}

/// A timestamp on the wire: its six words in order, each most significant
/// byte first.
pub open spec fn timestamp_bytes(timestamp: Timestamp) -> Seq<u8> {
    be_bytes(timestamp.word0) + be_bytes(timestamp.word1) + be_bytes(timestamp.word2) + be_bytes(
        timestamp.word3,
    ) + be_bytes(timestamp.word4) + be_bytes(timestamp.word5)
}

/// The timestamp that stands in `bytes` at position `at`, if twelve bytes
/// are left there.
pub open spec fn parsed_timestamp(bytes: Seq<u8>, at: int) -> Option<Timestamp> {
    if 0 <= at && at + 12 <= bytes.len() {
        Some(
            Timestamp {
                word0: be_value(bytes[at], bytes[at + 1]),
                word1: be_value(bytes[at + 2], bytes[at + 3]),
                word2: be_value(bytes[at + 4], bytes[at + 5]),
                word3: be_value(bytes[at + 6], bytes[at + 7]),
                word4: be_value(bytes[at + 8], bytes[at + 9]),
                word5: be_value(bytes[at + 10], bytes[at + 11]),
            },
        )
    } else {
        None
    }
}

impl Timestamp {
    /// The timestamp for a number of milliseconds: the number takes the
    /// lower eight bytes.
    pub fn from_millis(millis: u64) -> (timestamp: Timestamp)
        ensures
            timestamp == (Timestamp {
                word0: 0,
                word1: 0,
                word2: (millis >> 48) as u16,
                word3: ((millis >> 32) & 0xffff) as u16,
                word4: ((millis >> 16) & 0xffff) as u16,
                word5: (millis & 0xffff) as u16,
            }),
    {
        assert(millis >> 48 <= 0xffff) by (bit_vector);
        assert((millis >> 32) & 0xffff <= 0xffff) by (bit_vector);
        assert((millis >> 16) & 0xffff <= 0xffff) by (bit_vector);
        assert(millis & 0xffff <= 0xffff) by (bit_vector);
        Timestamp {
            word0: 0,
            word1: 0,
            word2: (millis >> 48) as u16,
            word3: ((millis >> 32) & 0xffff) as u16,
            word4: ((millis >> 16) & 0xffff) as u16,
            word5: (millis & 0xffff) as u16,
        }
    }

    /// Appends the timestamp to `out`.
    pub fn write(&self, out: &mut Vec<u8>)
        ensures
            final(out)@ == old(out)@ + timestamp_bytes(*self),
    {
        put_u16(out, self.word0);
        put_u16(out, self.word1);
        put_u16(out, self.word2);
        put_u16(out, self.word3);
        put_u16(out, self.word4);
        put_u16(out, self.word5);
        assert(out@ =~= old(out)@ + timestamp_bytes(*self));
    }

    /// Reads a timestamp from `bytes` at position `at`. Nothing is read
    /// where fewer than twelve bytes are left.
    pub fn read(bytes: &Vec<u8>, at: usize) -> (read: Option<Timestamp>)
        ensures
            read == parsed_timestamp(bytes@, at as int),
    {
        if bytes.len() < 12 || at > bytes.len() - 12 {
            return None;
        }
        Some(
            Timestamp {
                word0: get_u16(bytes[at], bytes[at + 1]),
                word1: get_u16(bytes[at + 2], bytes[at + 3]),
                word2: get_u16(bytes[at + 4], bytes[at + 5]),
                word3: get_u16(bytes[at + 6], bytes[at + 7]),
                word4: get_u16(bytes[at + 8], bytes[at + 9]),
                word5: get_u16(bytes[at + 10], bytes[at + 11]),
            },
        )
    }
}

/// A timestamp that is written and read back is the one that was written.
pub proof fn lemma_timestamp_round_trip(timestamp: Timestamp, before: Seq<u8>, after: Seq<u8>)
    ensures
        parsed_timestamp(before + timestamp_bytes(timestamp) + after, before.len() as int) == Some(
            timestamp,
        ),
        timestamp_bytes(timestamp).len() == 12,
{
    let bytes = before + timestamp_bytes(timestamp) + after;
    let at = before.len() as int;
    lemma_be_round_trip(timestamp.word0);
    lemma_be_round_trip(timestamp.word1);
    lemma_be_round_trip(timestamp.word2);
    lemma_be_round_trip(timestamp.word3);
    lemma_be_round_trip(timestamp.word4);
    lemma_be_round_trip(timestamp.word5);
    assert(bytes[at] == be_bytes(timestamp.word0)[0]);
    assert(bytes[at + 1] == be_bytes(timestamp.word0)[1]);
    assert(bytes[at + 2] == be_bytes(timestamp.word1)[0]);
    assert(bytes[at + 3] == be_bytes(timestamp.word1)[1]);
    assert(bytes[at + 4] == be_bytes(timestamp.word2)[0]);
    assert(bytes[at + 5] == be_bytes(timestamp.word2)[1]);
    assert(bytes[at + 6] == be_bytes(timestamp.word3)[0]);
    assert(bytes[at + 7] == be_bytes(timestamp.word3)[1]);
    assert(bytes[at + 8] == be_bytes(timestamp.word4)[0]);
    assert(bytes[at + 9] == be_bytes(timestamp.word4)[1]);
    assert(bytes[at + 10] == be_bytes(timestamp.word5)[0]);
    assert(bytes[at + 11] == be_bytes(timestamp.word5)[1]);
}

} // verus!
