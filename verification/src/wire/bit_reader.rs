use vstd::prelude::*;
use crate::wire::bit_writer::lemma_bits_len;
use crate::wire::bits::{
    bits_from, bits_of, lemma_low_bits_len, lemma_low_bits_push, lemma_two_to_values, low_bits,
    two_to,
};
use crate::wire::error::SerdeErr;

verus! {

/// Reads single bits from borrowed bytes, in the order in which a writer
/// wrote them.
pub struct BitReader<'a> {
    buffer: &'a [u8],
    next: usize,
    current: u8,
    left: u8,
}

impl<'a> View for BitReader<'a> {
    type V = Seq<bool>;

    /// The bits that are left to read.
    closed spec fn view(&self) -> Seq<bool> {
        low_bits(self.current as nat, self.left as nat) + bits_from(self.buffer@, self.next as int)
    }
}

impl<'a> BitReader<'a> {
    /// What holds of every reader: it stands inside its bytes.
    pub closed spec fn wf(&self) -> bool {
        self.next <= self.buffer@.len() && self.left <= 8
    }

    /// A reader at the beginning of `buffer`.
    pub fn new(buffer: &'a [u8]) -> (reader: BitReader<'a>)
        ensures
            reader.wf(),
            reader@ == bits_of(buffer@),
    {
        let reader = BitReader { buffer, next: 0, current: 0, left: 0 };
        assert(reader@ =~= bits_of(buffer@));
        reader
    }

    /// The number of bits that are left to read, or the greatest number
    /// that the machine can count to, where more are left.
    pub fn bits_left(&self) -> (bits: usize)
        requires
            self.wf(),
        ensures
            bits == (if self@.len() <= usize::MAX {
                self@.len() as usize
            } else {
                usize::MAX
            }),
    {
        proof {
            lemma_low_bits_len(self.current as nat, self.left as nat);
            lemma_bits_len(self.buffer@, self.next as int);
        }
        let bytes: usize = self.buffer.len() - self.next;
        let total: u128 = (bytes as u128) * 8 + self.left as u128;
        if total > usize::MAX as u128 {
            usize::MAX
        } else {
            total as usize
        }
    }

    /// Reads one bit. It fails where no bit is left, and then reads nothing.
    pub fn read_bit(&mut self) -> (read: Result<bool, SerdeErr>)
        requires
            old(self).wf(),
        ensures
            final(self).wf(),
            match read {
                Ok(bit) => old(self)@.len() > 0 && bit == old(self)@[0] && final(self)@ == old(
                    self,
                )@.drop_first(),
                Err(_) => old(self)@.len() == 0 && final(self)@ == old(self)@,
            },
    {
        proof {
            lemma_low_bits_len(self.current as nat, self.left as nat);
            lemma_bits_len(self.buffer@, self.next as int);
        }
        if self.left == 0 {
            if self.next >= self.buffer.len() {
                return Err(SerdeErr);
            }
            self.current = self.buffer[self.next];
            self.next = self.next + 1;
            self.left = 8;
            assert(self@ =~= old(self)@);
        }
        let bit = self.current % 2 == 1;
        proof {
            lemma_low_bits_len(self.current as nat, self.left as nat);
            lemma_low_bits_len((self.current / 2) as nat, (self.left - 1) as nat);
        }
        let ghost loaded = self@;
        self.current = self.current / 2;
        self.left = self.left - 1;
        assert(self@ =~= loaded.drop_first());
        Ok(bit)
    }

    /// Reads eight bits as a byte, the least significant first.
    pub fn read_byte(&mut self) -> (read: Result<u8, SerdeErr>)
        requires
            old(self).wf(),
        ensures
            final(self).wf(),
            match read {
                Ok(byte) => old(self)@.len() >= 8 && low_bits(byte as nat, 8) == old(
                    self,
                )@.subrange(0, 8) && final(self)@ == old(self)@.skip(8),
                Err(_) => old(self)@.len() < 8,
            },
    {
        let mut byte: u8 = 0;
        let mut weight: u8 = 1;
        let mut i: u8 = 0;
        proof {
            lemma_two_to_values();
            assert(low_bits(0, 0) =~= old(self)@.subrange(0, 0));
            assert(self@ =~= old(self)@.skip(0));
        }
        while i < 8
            invariant
                i <= 8,
                self.wf(),
                old(self)@.len() >= i,
                i < 8 ==> weight as nat == two_to(i as nat),
                (byte as nat) < two_to(i as nat),
                low_bits(byte as nat, i as nat) == old(self)@.subrange(0, i as int),
                self@ == old(self)@.skip(i as int),
            decreases 8 - i,
        {
            let bit = match self.read_bit() {
                Ok(bit) => bit,
                Err(error) => {
                    return Err(error);
                },
            };
            proof {
                lemma_low_bits_push(byte as nat, i as nat, bit);
                lemma_two_to_values();
                reveal_with_fuel(two_to, 9);
                assert(old(self)@.skip(i as int)[0] == old(self)@[i as int]);
                assert(old(self)@.subrange(0, i as int).push(bit) =~= old(self)@.subrange(
                    0,
                    i as int + 1,
                ));
                assert(old(self)@.skip(i as int).drop_first() =~= old(self)@.skip(i as int + 1));
            }
            if bit {
                byte = byte + weight;
            }
            if i < 7 {
                weight = weight * 2;
            }
            i += 1;
        }
        Ok(byte)
    }
}

} // verus!
