use vstd::prelude::*;
use crate::wire::bits::{
    bits_from, bits_of, lemma_bits_from_push, lemma_low_bits_len, lemma_low_bits_padding,
    lemma_low_bits_push, lemma_two_to_values, low_bits, two_to, zero_bits,
};

verus! {

/// Writes single bits into bytes. The first bit written is the least
/// significant bit of the first byte.
pub struct BitWriter {
    buffer: Vec<u8>,
    scratch: u8,
    scratch_index: u8,
    weight: u8,
}

impl View for BitWriter {
    type V = Seq<bool>;

    /// The bits written so far.
    closed spec fn view(&self) -> Seq<bool> {
        bits_of(self.buffer@) + low_bits(self.scratch as nat, self.scratch_index as nat)
    }
}

impl BitWriter {
    /// What holds of every writer: the byte in work is not full, and holds
    /// nothing above the bits written into it.
    pub closed spec fn wf(&self) -> bool {
        &&& self.scratch_index < 8
        &&& self.weight as nat == two_to(self.scratch_index as nat)
        &&& (self.scratch as nat) < two_to(self.scratch_index as nat)
    }

    /// A writer that has written nothing.
    pub fn new() -> (writer: BitWriter)
        ensures
            writer.wf(),
            writer@ == Seq::<bool>::empty(),
    {
        let writer = BitWriter { buffer: Vec::new(), scratch: 0, scratch_index: 0, weight: 1 };
        assert(writer@ =~= Seq::<bool>::empty());
        writer
    }

    /// Writes one bit.
    pub fn write_bit(&mut self, bit: bool)
        requires
            old(self).wf(),
        ensures
            final(self).wf(),
            final(self)@ == old(self)@.push(bit),
    {
        proof {
            lemma_two_to_values();
            lemma_low_bits_push(self.scratch as nat, self.scratch_index as nat, bit);
            reveal_with_fuel(two_to, 9);
        }
        if bit {
            self.scratch = self.scratch + self.weight;
        }
        if self.scratch_index == 7 {
            proof {
                lemma_bits_from_push(self.buffer@, self.scratch, 0);
            }
            self.buffer.push(self.scratch);
            self.scratch = 0;
            self.scratch_index = 0;
            self.weight = 1;
            assert(low_bits(0, 0) =~= Seq::<bool>::empty());
            assert(self@ =~= old(self)@.push(bit));
        } else {
            self.scratch_index = self.scratch_index + 1;
            self.weight = self.weight * 2;
            assert(self@ =~= old(self)@.push(bit));
        }
    }

    /// Writes the eight bits of a byte, the least significant first.
    pub fn write_byte(&mut self, byte: u8)
        requires
            old(self).wf(),
        ensures
            final(self).wf(),
            final(self)@ == old(self)@ + low_bits(byte as nat, 8),
    {
        let mut rest: u8 = byte;
        let mut i: u8 = 0;
        assert(self@ =~= old(self)@ + low_bits(byte as nat, 8).subrange(0, 0));
        proof {
            lemma_low_bits_len(byte as nat, 8);
        }
        while i < 8
            invariant
                i <= 8,
                self.wf(),
                low_bits(byte as nat, 8).len() == 8,
                self@ == old(self)@ + low_bits(byte as nat, 8).subrange(0, i as int),
                low_bits(rest as nat, (8 - i) as nat) == low_bits(byte as nat, 8).subrange(
                    i as int,
                    8,
                ),
            decreases 8 - i,
        {
            let ghost before = low_bits(rest as nat, (8 - i) as nat);
            self.write_bit(rest % 2 == 1);
            rest = rest / 2;
            i += 1;
            proof {
                let all = low_bits(byte as nat, 8);
                assert(before[0] == all[i as int - 1]);
                assert(low_bits(rest as nat, (8 - i) as nat) =~= before.drop_first());
                assert(before.drop_first() =~= all.subrange(i as int, 8));
                assert(self@ =~= old(self)@ + all.subrange(0, i as int));
            }
        }
        assert(low_bits(byte as nat, 8).subrange(0, 8) =~= low_bits(byte as nat, 8));
    }

    /// The number of bits written so far.
    pub fn bits_written(&self) -> (count: usize)
        requires
            self.wf(),
            self@.len() <= usize::MAX,
        ensures
            count == self@.len(),
    {
        proof {
            lemma_bits_len(self.buffer@, 0);
            lemma_low_bits_len(self.scratch as nat, self.scratch_index as nat);
        }
        self.buffer.len() * 8 + self.scratch_index as usize
    }

    /// Gives the bytes written, with their number, and starts over. Where
    /// the number of bits is no multiple of eight, zero bits fill the last
    /// byte.
    pub fn flush(&mut self) -> (out: (usize, Vec<u8>))
        requires
            old(self).wf(),
        ensures
            final(self).wf(),
            final(self)@ == Seq::<bool>::empty(),
            out.0 == out.1@.len(),
            bits_of(out.1@) == old(self)@ + zero_bits((bits_of(out.1@).len() - old(self)@.len()) as nat),
            bits_of(out.1@).len() - old(self)@.len() < 8,
            out.1@.len() * 8 == bits_of(out.1@).len(),
    {
        proof {
            lemma_low_bits_len(self.scratch as nat, self.scratch_index as nat);
        }
        if self.scratch_index > 0 {
            proof {
                lemma_bits_from_push(self.buffer@, self.scratch, 0);
                lemma_low_bits_padding(
                    self.scratch as nat,
                    self.scratch_index as nat,
                    (8 - self.scratch_index) as nat,
                );
                lemma_low_bits_len(self.scratch as nat, 8);
            }
            self.buffer.push(self.scratch);
        } else {
            assert(self@ =~= bits_of(self.buffer@) + zero_bits(0));
        }
        let mut buffer: Vec<u8> = Vec::new();
        core::mem::swap(&mut buffer, &mut self.buffer);
        self.scratch = 0;
        self.scratch_index = 0;
        self.weight = 1;
        proof {
            lemma_bits_len(buffer@, 0);
            assert(self@ =~= Seq::<bool>::empty());
            assert(bits_of(buffer@) =~= old(self)@ + zero_bits(
                (bits_of(buffer@).len() - old(self)@.len()) as nat,
            ));
        }
        (buffer.len(), buffer)
    }
}

/// Each byte has eight bits.
pub proof fn lemma_bits_len(bytes: Seq<u8>, from: int)
    requires
        0 <= from <= bytes.len(),
    ensures
        bits_from(bytes, from).len() == 8 * (bytes.len() - from),
    decreases bytes.len() - from,
{
    if from < bytes.len() {
        lemma_bits_len(bytes, from + 1);
        lemma_low_bits_len(bytes[from] as nat, 8);
    }
}

} // verus!
