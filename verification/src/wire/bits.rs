use vstd::prelude::*;

verus! {

/// Two to the power `n`.
pub open spec fn two_to(n: nat) -> nat
    decreases n,
{
    if n == 0 {
        1
    } else {
        2 * two_to((n - 1) as nat)
    }
}

/// The lowest `n` bits of a number, the least significant first.
pub open spec fn low_bits(value: nat, n: nat) -> Seq<bool>
    decreases n,
{
    if n == 0 {
        Seq::empty()
    } else {
        seq![value % 2 == 1] + low_bits(value / 2, (n - 1) as nat)
    }
}

/// The number that a sequence of bits stands for, the least significant bit
/// first.
pub open spec fn value_of(bits: Seq<bool>) -> nat
    decreases bits.len(),
{
    if bits.len() == 0 {
        0
    } else {
        (if bits[0] {
            1nat
        } else {
            0nat
        }) + 2 * value_of(bits.drop_first())
    }
}

/// A number without its lowest `n` bits.
pub open spec fn shifted(value: nat, n: nat) -> nat
    decreases n,
{
    if n == 0 {
        value
    } else {
        shifted(value / 2, (n - 1) as nat)
    }
}

/// The bits of a sequence of bytes: those of each byte in turn, the least
/// significant first, from position `from` on.
pub open spec fn bits_from(bytes: Seq<u8>, from: int) -> Seq<bool>
    decreases bytes.len() - from,
{
    if from < 0 || from >= bytes.len() {
        Seq::empty()
    } else {
        low_bits(bytes[from] as nat, 8) + bits_from(bytes, from + 1)
    }
}

/// The bits of a sequence of bytes.
pub open spec fn bits_of(bytes: Seq<u8>) -> Seq<bool> {
    bits_from(bytes, 0)
}

/// `n` bits that are all zero.
pub open spec fn zero_bits(n: nat) -> Seq<bool> {
    Seq::new(n, |i: int| false)
}

/// The lowest bits of a number are as many as were asked for.
pub proof fn lemma_low_bits_len(value: nat, n: nat)
    ensures
        low_bits(value, n).len() == n,
    decreases n,
{
    if n > 0 {
        lemma_low_bits_len(value / 2, (n - 1) as nat);
    }
}

/// Bits stand for a number below two to the power of their count.
pub proof fn lemma_value_of_bound(bits: Seq<bool>)
    ensures
        value_of(bits) < two_to(bits.len()),
    decreases bits.len(),
{
    if bits.len() > 0 {
        lemma_value_of_bound(bits.drop_first());
    }
}

/// A number is made up of its lowest `n` bits and what lies above them.
pub proof fn lemma_low_bits_value(value: nat, n: nat)
    ensures
        value_of(low_bits(value, n)) + two_to(n) * shifted(value, n) == value,
    decreases n,
{
    if n > 0 {
        let bits = low_bits(value, n);
        let rest = low_bits(value / 2, (n - 1) as nat);
        lemma_low_bits_value(value / 2, (n - 1) as nat);
        assert(bits.drop_first() =~= rest);
        assert(bits[0] == (value % 2 == 1));
        let high = shifted(value / 2, (n - 1) as nat);
        let below = two_to((n - 1) as nat);
        let low = value_of(rest);
        assert(low + below * high == value / 2);
        assert(value_of(bits) == (value % 2) + 2 * low);
        assert(two_to(n) * shifted(value, n) == 2 * (below * high)) by (nonlinear_arith)
            requires
                two_to(n) == 2 * below,
                shifted(value, n) == high,
        ;
    } else {
        assert(low_bits(value, 0).len() == 0);
        assert(value_of(low_bits(value, 0)) == 0);
        assert(two_to(0) * shifted(value, 0) == value) by (nonlinear_arith)
            requires
                two_to(0) == 1,
                shifted(value, 0) == value,
        ;
    }
}

/// A number below two to the power `n` is the number that its lowest `n`
/// bits stand for.
pub proof fn lemma_low_bits_round_trip(value: nat, n: nat)
    requires
        value < two_to(n),
    ensures
        value_of(low_bits(value, n)) == value,
        shifted(value, n) == 0,
    decreases n,
{
    lemma_low_bits_value(value, n);
    lemma_value_of_bound(low_bits(value, n));
    lemma_low_bits_len(value, n);
    let high = shifted(value, n);
    let scale = two_to(n);
    if high > 0 {
        assert(scale * high >= scale) by (nonlinear_arith)
            requires
                high >= 1,
                scale >= 0,
        ;
    } else {
        assert(scale * high == 0) by (nonlinear_arith)
            requires
                high == 0,
        ;
    }
}

/// The bits that a number was read from are its lowest bits.
pub proof fn lemma_value_of_low_bits(bits: Seq<bool>)
    ensures
        low_bits(value_of(bits), bits.len()) == bits,
    decreases bits.len(),
{
    if bits.len() > 0 {
        lemma_value_of_low_bits(bits.drop_first());
        let value = value_of(bits);
        let rest = value_of(bits.drop_first());
        assert(value / 2 == rest);
        assert((value % 2 == 1) == bits[0]);
        assert(low_bits(value, bits.len()) =~= bits);
    } else {
        assert(low_bits(value_of(bits), 0) =~= bits);
    }
}

/// Taking bits off a number in two steps is taking them off in one.
pub proof fn lemma_low_bits_split(value: nat, n: nat, m: nat)
    ensures
        low_bits(value, n + m) == low_bits(value, n) + low_bits(shifted(value, n), m),
        shifted(value, n + m) == shifted(shifted(value, n), m),
    decreases n,
{
    if n > 0 {
        lemma_low_bits_split(value / 2, (n - 1) as nat, m);
        assert(low_bits(value, n + m) =~= low_bits(value, n) + low_bits(shifted(value, n), m));
    } else {
        assert(low_bits(value, m) =~= low_bits(value, 0) + low_bits(value, m));
    }
}

/// A number with its bit `n` set has the bits that it had below, and then a
/// set bit.
pub proof fn lemma_low_bits_push(value: nat, n: nat, bit: bool)
    requires
        value < two_to(n),
    ensures
        low_bits(
            value + (if bit {
                two_to(n)
            } else {
                0
            }),
            n + 1,
        ) == low_bits(value, n).push(bit),
        value + (if bit {
            two_to(n)
        } else {
            0
        }) < two_to(n + 1),
    decreases n,
{
    let more = value + (if bit {
        two_to(n)
    } else {
        0
    });
    if n > 0 {
        lemma_low_bits_push(value / 2, (n - 1) as nat, bit);
        assert(more / 2 == value / 2 + (if bit {
            two_to((n - 1) as nat)
        } else {
            0
        }));
        assert(more % 2 == value % 2);
        assert(low_bits(more, n + 1) =~= low_bits(value, n).push(bit));
    } else {
        assert(low_bits(more, 1) =~= low_bits(value, 0).push(bit)) by {
            assert(low_bits(more / 2, 0) =~= Seq::<bool>::empty());
        }
    }
}

/// The bits above a number are zero.
pub proof fn lemma_low_bits_padding(value: nat, n: nat, m: nat)
    requires
        value < two_to(n),
    ensures
        low_bits(value, n + m) == low_bits(value, n) + zero_bits(m),
{
    lemma_low_bits_split(value, n, m);
    lemma_low_bits_round_trip(value, n);
    lemma_low_bits_zero(m);
}

/// Zero has only zero bits.
pub proof fn lemma_low_bits_zero(n: nat)
    ensures
        low_bits(0, n) == zero_bits(n),
    decreases n,
{
    if n > 0 {
        lemma_low_bits_zero((n - 1) as nat);
        assert(low_bits(0, n) =~= zero_bits(n));
    } else {
        assert(low_bits(0, 0) =~= zero_bits(0));
    }
}

/// A byte more at the end of a sequence of bytes is eight bits more at the
/// end of its bits.
pub proof fn lemma_bits_from_push(bytes: Seq<u8>, byte: u8, from: int)
    requires
        0 <= from <= bytes.len(),
    ensures
        bits_from(bytes.push(byte), from) == bits_from(bytes, from) + low_bits(byte as nat, 8),
    decreases bytes.len() - from,
{
    if from < bytes.len() {
        lemma_bits_from_push(bytes, byte, from + 1);
        assert(bytes.push(byte)[from] == bytes[from]);
        assert(bits_from(bytes.push(byte), from) =~= bits_from(bytes, from) + low_bits(
            byte as nat,
            8,
        ));
    } else {
        assert(bits_from(bytes.push(byte), from + 1) =~= Seq::<bool>::empty());
        assert(bits_from(bytes.push(byte), from) =~= bits_from(bytes, from) + low_bits(
            byte as nat,
            8,
        ));
    }
}

/// The powers of two that the codec meets.
pub proof fn lemma_two_to_values()
    ensures
        two_to(0) == 1,
        two_to(1) == 2,
        two_to(2) == 4,
        two_to(3) == 8,
        two_to(4) == 16,
        two_to(5) == 32,
        two_to(6) == 64,
        two_to(7) == 128,
        two_to(8) == 256,
        two_to(16) == 65536,
        two_to(32) == 0x1_0000_0000,
        two_to(64) == 0x1_0000_0000_0000_0000,
{
    reveal_with_fuel(two_to, 9);
    assert(two_to(8) == 256);
    assert(two_to(16) == 65536) by {
        lemma_two_to_adds(8, 8);
    }
    assert(two_to(32) == 0x1_0000_0000) by {
        lemma_two_to_adds(8, 8);
        lemma_two_to_adds(16, 16);
    }
    assert(two_to(64) == 0x1_0000_0000_0000_0000) by {
        lemma_two_to_adds(8, 8);
        lemma_two_to_adds(16, 16);
        lemma_two_to_adds(32, 32);
    }
}

/// Powers of two multiply by adding their exponents.
pub proof fn lemma_two_to_adds(a: nat, b: nat)
    ensures
        two_to(a + b) == two_to(a) * two_to(b),
    decreases a,
{
    if a > 0 {
        lemma_two_to_adds((a - 1) as nat, b);
        let x = two_to((a - 1) as nat);
        let y = two_to(b);
        assert((a + b - 1) as nat == (a - 1) as nat + b);
        assert(two_to(a + b) == 2 * two_to((a + b - 1) as nat));
        assert(2 * (x * y) == (2 * x) * y) by (nonlinear_arith);
    } else {
        assert(a + b == b);
        assert(two_to(a) * two_to(b) == two_to(b)) by (nonlinear_arith)
            requires
                two_to(a) == 1,
        ;
    }
}

/// A greater exponent gives no smaller power of two.
pub proof fn lemma_two_to_monotone(a: nat, b: nat)
    requires
        a <= b,
    ensures
        two_to(a) <= two_to(b),
        two_to(a) >= 1,
    decreases b,
{
    if a < b {
        lemma_two_to_monotone(a, (b - 1) as nat);
    } else if a > 0 {
        lemma_two_to_monotone((a - 1) as nat, (a - 1) as nat);
    }
}

/// Taking bits off a number that is not zero makes it smaller.
pub proof fn lemma_shifted_smaller(value: nat, n: nat)
    requires
        n >= 1,
        value >= 1,
    ensures
        shifted(value, n) < value,
        shifted(value, n) <= value / 2,
    decreases n,
{
    if n > 1 {
        if value / 2 >= 1 {
            lemma_shifted_smaller(value / 2, (n - 1) as nat);
        } else {
            lemma_shifted_zero((n - 1) as nat);
        }
    } else {
        assert(shifted(value / 2, 0) == value / 2);
    }
}

/// Zero stays zero.
pub proof fn lemma_shifted_zero(n: nat)
    ensures
        shifted(0, n) == 0,
    decreases n,
{
    if n > 0 {
        lemma_shifted_zero((n - 1) as nat);
    }
}

} // verus!
