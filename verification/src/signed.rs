//! The signed 32-bit numbers in which the engine takes sizes and indices.

use vstd::prelude::*;

verus! {

/// The signed number with the low 32 bits of `n`.
pub open spec fn low_signed(n: int) -> int {
    if n % 0x1_0000_0000 < 0x8000_0000 {
        n % 0x1_0000_0000
    } else {
        n % 0x1_0000_0000 - 0x1_0000_0000
    }
}

/// Numbers that a signed 32-bit number can hold are kept.
pub proof fn law_low_signed_keeps(n: int)
    requires
        0 <= n <= i32::MAX,
    ensures
        low_signed(n) == n,
{
}

/// The signed number with the low 32 bits of `n`.
pub(crate) fn to_signed(n: u64) -> (signed: i32)
    ensures
        signed == low_signed(n as int),
{
    let low: u64 = n % 0x1_0000_0000;
    if low < 0x8000_0000 {
        low as i32
    } else {
        (low as i64 - 0x1_0000_0000) as i32
    }
}

/// The number that is taken differs from `n` by a multiple of what 32 bits can count, and a signed
/// 32-bit number can hold it: there is only one such.
pub proof fn law_low_signed_is_congruent(n: int)
    ensures
        i32::MIN <= low_signed(n) <= i32::MAX,
        (n - low_signed(n)) % 0x1_0000_0000 == 0,
{
}

} // verus!
