use vstd::prelude::*;

verus! {

/// Whether bit `i` of a byte is set.
pub open spec fn bit_of(byte: u8, i: u8) -> bool {
    byte & (1u8 << i) != 0
}

/// Whether the bit for property `index` is set in a mask; a bit beyond the
/// mask's bytes counts as not set.
pub open spec fn mask_bit(mask: Seq<u8>, index: int) -> bool {
    0 <= index && index / 8 < mask.len() && bit_of(mask[index / 8], (index % 8) as u8)
}

/// Whether no bit of a mask is set.
pub open spec fn all_clear(mask: Seq<u8>) -> bool {
    forall|i: int| 0 <= i < mask.len() ==> mask[i] == 0
}

/// A mask of `size` bytes with no bit set.
pub open spec fn zeros(size: nat) -> Seq<u8> {
    Seq::new(size, |i: int| 0u8)
}

/// The union of two masks of one size; masks of different sizes leave the
/// first as it is.
pub open spec fn or_masks(a: Seq<u8>, b: Seq<u8>) -> Seq<u8> {
    if a.len() == b.len() {
        Seq::new(a.len(), |i: int| a[i] | b[i])
    } else {
        a
    }
}

/// The first mask without the bits of the second; masks of different sizes
/// leave the first as it is.
pub open spec fn nand_masks(a: Seq<u8>, b: Seq<u8>) -> Seq<u8> {
    if a.len() == b.len() {
        Seq::new(a.len(), |i: int| a[i] & !b[i])
    } else {
        a
    }
}

/// The second mask's contents, if it has the first one's size, else the first.
pub open spec fn copied_mask(a: Seq<u8>, b: Seq<u8>) -> Seq<u8> {
    if a.len() == b.len() {
        b
    } else {
        a
    }
}

/// A mask with the bit for property `index` given a value; an index beyond the
/// mask's bytes changes nothing.
pub open spec fn with_bit(mask: Seq<u8>, index: u8, value: bool) -> Seq<u8> {
    let at = index as int / 8;
    let bit = 1u8 << ((index % 8) as u8);
    if at < mask.len() {
        mask.update(at, if value { mask[at] | bit } else { mask[at] & !bit })
    } else {
        mask
    }
}

/// The number of bytes that remain when the zero bytes at the end are left out.
pub open spec fn trimmed_len(mask: Seq<u8>) -> nat
    decreases mask.len(),
{
    if mask.len() == 0 {
        0
    } else if mask.last() != 0 {
        mask.len()
    } else {
        trimmed_len(mask.drop_last())
    }
}

/// A mask without the zero bytes at its end.
pub open spec fn trimmed(mask: Seq<u8>) -> Seq<u8> {
    mask.subrange(0, trimmed_len(mask) as int)
}

/// A mask on the wire: the number of bytes that follow, then the mask without
/// the zero bytes at its end.
pub open spec fn wire_form(mask: Seq<u8>) -> Seq<u8> {
    seq![trimmed_len(mask) as u8] + trimmed(mask)
}

/// What is read from `bytes` at position `at`: the mask that was sent and
/// the position after it, or nothing where the bytes end too early.
pub open spec fn parsed(bytes: Seq<u8>, at: int) -> Option<(Seq<u8>, int)> {
    if 0 <= at < bytes.len() && at + 1 + bytes[at] as int <= bytes.len() {
        Some((bytes.subrange(at + 1, at + 1 + bytes[at] as int), at + 1 + bytes[at] as int))
    } else {
        None
    }
}

/// A mask brought to `size` bytes by zero bytes at its end; a mask that is
/// already longer stays as it is.
pub open spec fn zero_extended(mask: Seq<u8>, size: nat) -> Seq<u8> {
    if mask.len() <= size {
        mask + zeros((size - mask.len()) as nat)
    } else {
        mask
    }
}

/// A bitmap with one bit for each replicated property of a type: a set bit
/// says that the property has a change that one connection has not yet seen.
pub struct DiffMask {
    mask: Vec<u8>,
}

impl View for DiffMask {
    type V = Seq<u8>;

    closed spec fn view(&self) -> Seq<u8> {
        self.mask@
    }
}

impl DiffMask {
    #[verifier::type_invariant]
    spec fn sized(self) -> bool {
        self.mask@.len() <= 255
    }

    /// A mask of `bytes` bytes with no bit set.
    pub fn new(bytes: u8) -> (mask: DiffMask)
        ensures
            mask@ == zeros(bytes as nat),
    {
        let mut mask: Vec<u8> = Vec::new();
        let mut i: u8 = 0;
        while i < bytes
            invariant
                i <= bytes,
                mask@ == zeros(i as nat),
            decreases bytes - i,
        {
            mask.push(0);
            i += 1;
            assert(mask@ =~= zeros(i as nat));
        }
        DiffMask { mask }
    }

    /// The bit for property `index`, or nothing where the mask has no byte
    /// for it.
    pub fn bit(&self, index: u8) -> (bit: Option<bool>)
        ensures
            bit == (if index as int / 8 < self@.len() {
                Some(mask_bit(self@, index as int))
            } else {
                None
            }),
    {
        let at: usize = (index / 8) as usize;
        if at < self.mask.len() {
            let shift: u8 = index % 8;
            Some(self.mask[at] & (1u8 << shift) != 0)
        } else {
            None
        }
    }

    /// Gives the bit for property `index` a value.
    pub fn set_bit(&mut self, index: u8, value: bool)
        ensures
            final(self)@ == with_bit(old(self)@, index, value),
    {
        proof {
            use_type_invariant(&*self);
        }
        let at: usize = (index / 8) as usize;
        if at < self.mask.len() {
            let shift: u8 = index % 8;
            let bit: u8 = 1u8 << shift;
            let byte: u8 = self.mask[at];
            if value {
                self.mask[at] = byte | bit;
            } else {
                self.mask[at] = byte & !bit;
            }
        }
    }

    /// Clears every bit; the size stays.
    pub fn clear(&mut self)
        ensures
            final(self)@ == zeros(old(self)@.len()),
    {
        proof {
            use_type_invariant(&*self);
        }
        let size: usize = self.mask.len();
        let mut i: usize = 0;
        while i < size
            invariant
                i <= size,
                size == self.mask@.len(),
                size <= 255,
                forall|j: int| 0 <= j < i ==> self.mask@[j] == 0,
            decreases size - i,
        {
            self.mask[i] = 0;
            i += 1;
        }
        assert(self.mask@ =~= zeros(size as nat));
    }

    /// Whether no bit is set.
    pub fn is_clear(&self) -> (clear: bool)
        ensures
            clear == all_clear(self@),
    {
        let size: usize = self.mask.len();
        let mut i: usize = 0;
        while i < size
            invariant
                i <= size,
                size == self.mask@.len(),
                forall|j: int| 0 <= j < i ==> self.mask@[j] == 0,
            decreases size - i,
        {
            if self.mask[i] != 0 {
                return false;
            }
            i += 1;
        }
        true
    }

    /// The number of bytes.
    pub fn byte_number(&self) -> (size: u8)
        ensures
            size == self@.len(),
    {
        proof {
            use_type_invariant(self);
        }
        self.mask.len() as u8
    }

    /// The byte at `index`.
    pub fn byte(&self, index: usize) -> (byte: u8)
        requires
            index < self@.len(),
        ensures
            byte == self@[index as int],
    {
        self.mask[index]
    }

    /// Takes the bits of `other` out of this mask. A mask of another size
    /// changes nothing.
    pub fn nand(&mut self, other: &DiffMask)
        ensures
            final(self)@ == nand_masks(old(self)@, other@),
    {
        proof {
            use_type_invariant(&*self);
        }
        let size: usize = self.mask.len();
        if other.mask.len() != size {
            return;
        }
        let mut i: usize = 0;
        while i < size
            invariant
                i <= size,
                size == self.mask@.len(),
                size == other.mask@.len(),
                size == old(self).mask@.len(),
                size <= 255,
                forall|j: int| 0 <= j < i ==> self.mask@[j] == old(self).mask@[j] & !other.mask@[j],
                forall|j: int| i <= j < size ==> self.mask@[j] == old(self).mask@[j],
            decreases size - i,
        {
            let byte: u8 = self.mask[i];
            self.mask[i] = byte & !other.mask[i];
            i += 1;
        }
        assert(self.mask@ =~= nand_masks(old(self).mask@, other.mask@));
    }

    /// Adds the bits of `other` to this mask. A mask of another size changes
    /// nothing.
    pub fn or(&mut self, other: &DiffMask)
        ensures
            final(self)@ == or_masks(old(self)@, other@),
    {
        proof {
            use_type_invariant(&*self);
        }
        let size: usize = self.mask.len();
        if other.mask.len() != size {
            return;
        }
        let mut i: usize = 0;
        while i < size
            invariant
                i <= size,
                size == self.mask@.len(),
                size == other.mask@.len(),
                size == old(self).mask@.len(),
                size <= 255,
                forall|j: int| 0 <= j < i ==> self.mask@[j] == old(self).mask@[j] | other.mask@[j],
                forall|j: int| i <= j < size ==> self.mask@[j] == old(self).mask@[j],
            decreases size - i,
        {
            let byte: u8 = self.mask[i];
            self.mask[i] = byte | other.mask[i];
            i += 1;
        }
        assert(self.mask@ =~= or_masks(old(self).mask@, other.mask@));
    }

    /// Takes over the contents of `other`. A mask of another size changes
    /// nothing.
    pub fn copy_contents(&mut self, other: &DiffMask)
        ensures
            final(self)@ == copied_mask(old(self)@, other@),
    {
        proof {
            use_type_invariant(&*self);
        }
        let size: usize = self.mask.len();
        if other.mask.len() != size {
            return;
        }
        let mut i: usize = 0;
        while i < size
            invariant
                i <= size,
                size == self.mask@.len(),
                size == other.mask@.len(),
                size <= 255,
                forall|j: int| 0 <= j < i ==> self.mask@[j] == other.mask@[j],
            decreases size - i,
        {
            self.mask[i] = other.mask[i];
            i += 1;
        }
        assert(self.mask@ =~= other.mask@);
    }

    /// Appends the mask's wire form to `out`: a length byte, then the bytes up
    /// to the last one that is not zero.
    pub fn write(&self, out: &mut Vec<u8>)
        ensures
            final(out)@ == old(out)@ + wire_form(self@),
    {
        proof {
            use_type_invariant(self);
        }
        let mut keep: usize = self.mask.len();
        assert(self.mask@.subrange(0, keep as int) =~= self.mask@);
        while keep > 0 && self.mask[keep - 1] == 0
            invariant
                keep <= self.mask@.len(),
                trimmed_len(self.mask@) == trimmed_len(self.mask@.subrange(0, keep as int)),
            decreases keep,
        {
            proof {
                let head = self.mask@.subrange(0, keep as int);
                assert(head.drop_last() =~= self.mask@.subrange(0, keep as int - 1));
            }
            keep -= 1;
        }
        proof {
            let head = self.mask@.subrange(0, keep as int);
            assert(trimmed_len(head) == keep);
        }
        out.push(keep as u8);
        let mut i: usize = 0;
        while i < keep
            invariant
                i <= keep,
                keep <= self.mask@.len(),
                keep == trimmed_len(self.mask@),
                out@ == old(out)@ + seq![keep as u8] + self.mask@.subrange(0, i as int),
            decreases keep - i,
        {
            out.push(self.mask[i]);
            i += 1;
            assert(self.mask@.subrange(0, i as int) =~= self.mask@.subrange(0, i as int - 1).push(
                self.mask@[i as int - 1],
            ));
        }
        assert(out@ =~= old(out)@ + wire_form(self.mask@));
    }

    /// Reads a mask in its wire form from `bytes` at position `at`, and gives
    /// it with the position after it. Nothing is read where the bytes end
    /// before the mask does.
    pub fn read(bytes: &Vec<u8>, at: usize) -> (read: Option<(DiffMask, usize)>)
        ensures
            match (parsed(bytes@, at as int), read) {
                (Some((mask, next)), Some((got, after))) => got@ == mask && after == next,
                (None, None) => true,
                _ => false,
            },
    {
        if at >= bytes.len() {
            return None;
        }
        let size: usize = bytes[at] as usize;
        if size > bytes.len() - at - 1 {
            return None;
        }
        let mut mask: Vec<u8> = Vec::new();
        let mut i: usize = 0;
        while i < size
            invariant
                i <= size,
                size <= 255,
                at + 1 + size <= bytes@.len(),
                bytes@.len() <= usize::MAX,
                mask@ == bytes@.subrange(at as int + 1, at as int + 1 + i as int),
            decreases size - i,
        {
            mask.push(bytes[at + 1 + i]);
            i += 1;
            assert(mask@ =~= bytes@.subrange(at as int + 1, at as int + 1 + i as int));
        }
        Some((DiffMask { mask }, at + 1 + size))
    }

    /// Brings the mask to `size` bytes by adding zero bytes at its end.
    pub fn extend_to(&mut self, size: u8)
        ensures
            final(self)@ == zero_extended(old(self)@, size as nat),
    {
        let mut copy = self.clone();
        proof {
            use_type_invariant(&copy);
        }
        let DiffMask { mask: mut bytes } = copy;
        let ghost start = bytes@;
        while bytes.len() < size as usize
            invariant
                start.len() <= 255,
                start.len() <= bytes@.len(),
                bytes@.len() <= start.len() || bytes@.len() <= size,
                bytes@ == start + zeros((bytes@.len() - start.len()) as nat),
            decreases size as int - bytes@.len(),
        {
            bytes.push(0);
            assert(bytes@ =~= start + zeros((bytes@.len() - start.len()) as nat));
        }
        assert(bytes@ =~= zero_extended(start, size as nat));
        self.mask = bytes;
    }
}

impl Clone for DiffMask {
    fn clone(&self) -> (copy: DiffMask)
        ensures
            copy@ == self@,
    {
        proof {
            use_type_invariant(self);
        }
        let mut mask: Vec<u8> = Vec::new();
        let mut i: usize = 0;
        while i < self.mask.len()
            invariant
                i <= self.mask@.len(),
                mask@ == self.mask@.subrange(0, i as int),
            decreases self.mask@.len() - i,
        {
            mask.push(self.mask[i]);
            i += 1;
            assert(mask@ =~= self.mask@.subrange(0, i as int));
        }
        assert(mask@ =~= self.mask@);
        DiffMask { mask }
    }
}

/// The trimmed length of a mask is at most its length, and what lies beyond
/// it is zero.
pub proof fn lemma_trimmed(mask: Seq<u8>)
    ensures
        trimmed_len(mask) <= mask.len(),
        forall|i: int| trimmed_len(mask) <= i < mask.len() ==> mask[i] == 0,
        trimmed_len(mask) > 0 ==> mask[trimmed_len(mask) - 1] != 0,
    decreases mask.len(),
{
    if mask.len() > 0 && mask.last() == 0 {
        lemma_trimmed(mask.drop_last());
        assert forall|i: int| trimmed_len(mask) <= i < mask.len() implies mask[i] == 0 by {
            if i < mask.len() - 1 {
                assert(mask.drop_last()[i] == mask[i]);
            }
        }
        if trimmed_len(mask) > 0 {
            assert(mask.drop_last()[trimmed_len(mask) - 1] == mask[trimmed_len(mask) - 1]);
        }
    }
}

/// A mask that is written and read back, and then brought to its size again
/// by zero bytes, is the mask that was written; the reader stops right after
/// what was written.
pub proof fn lemma_wire_round_trip(mask: Seq<u8>, before: Seq<u8>, after: Seq<u8>)
    requires
        mask.len() <= 255,
    ensures
        parsed(before + wire_form(mask) + after, before.len() as int) == Some(
            (trimmed(mask), (before.len() + wire_form(mask).len()) as int),
        ),
        zero_extended(trimmed(mask), mask.len()) == mask,
{
    lemma_trimmed(mask);
    let bytes = before + wire_form(mask) + after;
    let at = before.len() as int;
    let n = trimmed_len(mask);
    assert(bytes[at] == n as u8);
    assert(bytes.subrange(at + 1, at + 1 + n) =~= trimmed(mask));
    assert(zero_extended(trimmed(mask), mask.len()) =~= mask);
}

/// The union of two masks of one size has a bit exactly where one of them
/// has it.
pub proof fn lemma_or_bits(a: Seq<u8>, b: Seq<u8>, index: int)
    requires
        a.len() == b.len(),
    ensures
        mask_bit(or_masks(a, b), index) == (mask_bit(a, index) || mask_bit(b, index)),
{
    if 0 <= index && index / 8 < a.len() {
        let x = a[index / 8];
        let y = b[index / 8];
        let i = (index % 8) as u8;
        assert(((x | y) & (1u8 << i) != 0) == ((x & (1u8 << i) != 0) || (y & (1u8 << i) != 0)))
            by (bit_vector);
    }
}

/// Taking a mask of the same size out of another leaves a bit exactly where
/// the first has it and the second has not.
pub proof fn lemma_nand_bits(a: Seq<u8>, b: Seq<u8>, index: int)
    requires
        a.len() == b.len(),
    ensures
        mask_bit(nand_masks(a, b), index) == (mask_bit(a, index) && !mask_bit(b, index)),
{
    if 0 <= index && index / 8 < a.len() {
        let x = a[index / 8];
        let y = b[index / 8];
        let i = (index % 8) as u8;
        assert(((x & !y) & (1u8 << i) != 0) == ((x & (1u8 << i) != 0) && !(y & (1u8 << i) != 0)))
            by (bit_vector);
    }
}

/// A cleared mask has no bit.
pub proof fn lemma_zeros_bits(size: nat, index: int)
    ensures
        !mask_bit(zeros(size), index),
        all_clear(zeros(size)),
{
    let i = (index % 8) as u8;
    assert(0u8 & (1u8 << i) == 0) by (bit_vector);
}

/// Setting a bit makes it read as set and leaves the other bits alone;
/// clearing it makes it read as clear.
pub proof fn lemma_with_bit(mask: Seq<u8>, index: u8, value: bool, other: int)
    requires
        index as int / 8 < mask.len(),
    ensures
        mask_bit(with_bit(mask, index, value), index as int) == value,
        other != index as int ==> mask_bit(with_bit(mask, index, value), other) == mask_bit(
            mask,
            other,
        ),
{
    let at = index as int / 8;
    let i = (index % 8) as u8;
    let x = mask[at];
    assert(i < 8);
    assert((x | (1u8 << i)) & (1u8 << i) != 0) by (bit_vector)
        requires
            i < 8,
    ;
    assert((x & !(1u8 << i)) & (1u8 << i) == 0) by (bit_vector)
        requires
            i < 8,
    ;
    if other != index as int && 0 <= other && other / 8 == at {
        let j = (other % 8) as u8;
        assert(j < 8 && j != i);
        assert(((x | (1u8 << i)) & (1u8 << j) != 0) == (x & (1u8 << j) != 0)) by (bit_vector)
            requires
                i < 8,
                j < 8,
                i != j,
        ;
        assert(((x & !(1u8 << i)) & (1u8 << j) != 0) == (x & (1u8 << j) != 0)) by (bit_vector)
            requires
                i < 8,
                j < 8,
                i != j,
        ;
    }
}

} // verus!
