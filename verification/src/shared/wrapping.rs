use vstd::prelude::*;

verus! {

/// The signed distance from `b` to `a` on the circle of 16-bit numbers: the
/// difference `a - b` modulo 65536, read as a signed 16-bit number.
pub open spec fn wrapping_distance(a: u16, b: u16) -> int {
    let d = (a as int - b as int) % 65536;
    if d < 32768 {
        d
    } else {
        d - 65536
    }
}

/// Whether `a` comes after `b` in wrapping order.
pub open spec fn comes_after(a: u16, b: u16) -> bool {
    wrapping_distance(a, b) > 0
}

/// Computes the signed wrapping difference `a - b`.
pub fn wrapping_diff(a: u16, b: u16) -> (diff: i16)
    ensures
        diff as int == wrapping_distance(a, b),
{
    if a >= b {
        let d: u16 = a - b;
        if d < 32768 {
            d as i16
        } else {
            let low: i16 = (d - 32768) as i16;
            low - 16384 - 16384
        }
    } else {
        let d: u16 = b - a;
        if d <= 32768 {
            let neg: i16 = 0 - ((d - 1) as i16);
            neg - 1
        } else {
            let back: u16 = 65535 - d;
            (back + 1) as i16
        }
    }
}

/// Whether `a` comes after `b` in wrapping order.
pub fn sequence_greater_than(a: u16, b: u16) -> (greater: bool)
    ensures
        greater == comes_after(a, b),
{
    wrapping_diff(a, b) > 0
}

/// Whether `a` comes before `b` in wrapping order.
pub fn sequence_less_than(a: u16, b: u16) -> (less: bool)
    ensures
        less == (wrapping_distance(a, b) < 0),
{
    wrapping_diff(a, b) < 0
}

/// The wrapping difference turns around when its arguments are swapped,
/// except at the one distance that has no opposite.
pub proof fn lemma_wrapping_distance_antisymmetric(a: u16, b: u16)
    ensures
        wrapping_distance(a, b) != -32768 ==> wrapping_distance(b, a) == -wrapping_distance(a, b),
        wrapping_distance(a, a) == 0,
{
}

/// Stepping a number forward by less than half the circle gives a number
/// that comes after it, also across the wrap.
pub proof fn lemma_wrapping_step(a: u16, steps: u16)
    requires
        0 < steps < 32768,
    ensures
        wrapping_distance(((a as int + steps as int) % 65536) as u16, a) == steps as int,
{
}

} // verus!
