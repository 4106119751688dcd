//! Address arithmetic: alignment checks and rounding.

use vstd::arithmetic::div_mod::{
    lemma_add_mod_noop, lemma_fundamental_div_mod, lemma_mod_bound, lemma_mod_multiples_basic,
    lemma_mod_multiples_vanish, lemma_small_mod,
};
use vstd::arithmetic::power2::pow2;
use vstd::bits::{lemma_u64_low_bits_mask_is_mod, lemma_u64_pow2_no_overflow, lemma_u64_shl_is_mul};
use vstd::prelude::*;

verus! {

/// Errors raised by address conversions and checks.
#[derive(Debug, Clone, Copy, PartialEq, Eq, Structural)]
pub enum AddressError {
    /// The address is zero.
    Null,
    /// The address does not meet the required alignment.
    Unaligned,
    /// The address lies outside the mapped range.
    OutOfRange,
    /// A physical/virtual conversion failed.
    ConversionFailed,
}

/// An alignment is valid when it is a power of two that fits in a `u64`.
pub open spec fn is_power_of_two(a: u64) -> bool {
    exists|k: u64| k < 64 && a == (1u64 << k)
}

/// Clearing the bits of `m` in `x` subtracts exactly the bits of `m` that
/// were set in `x`.
proof fn lemma_and_not_mask(x: u64, m: u64)
    by (bit_vector)
    ensures
        x & !m == x - (x & m),
        x & m <= x,
{
}

/// A power of two is positive, and one less than it masks out the remainder
/// modulo it.
proof fn lemma_power_of_two_mask(x: u64, align: u64)
    requires
        is_power_of_two(align),
    ensures
        1 <= align,
        x & ((align - 1) as u64) == x % align,
{
    let k = choose|k: u64| k < 64 && align == (1u64 << k);
    lemma_u64_pow2_no_overflow(k as nat);
    lemma_u64_shl_is_mul(1u64, k);
    assert(align == pow2(k as nat));
    lemma_u64_low_bits_mask_is_mod(x, k as nat);
}

/// Whether `addr` is a multiple of `align`.
///
/// `align` must be a power of two.
pub fn is_aligned(addr: u64, align: u64) -> (r: bool)
    requires
        is_power_of_two(align),
    ensures
        r == (addr % align == 0),
{
    proof {
        lemma_power_of_two_mask(addr, align);
    }
    addr % align == 0
}

/// `addr` rounded down to the nearest multiple of `align`.
///
/// `align` must be a power of two.
pub fn align_down(addr: u64, align: u64) -> (r: u64)
    requires
        is_power_of_two(align),
    ensures
        r == addr - (addr % align),
{
    proof {
        lemma_power_of_two_mask(addr, align);
        lemma_and_not_mask(addr, (align - 1) as u64);
    }
    addr & !(align - 1)
}

/// The least multiple of `align` that is at least `addr`.
pub open spec fn spec_align_up(addr: u64, align: u64) -> int {
    if addr % align == 0 {
        addr as int
    } else {
        addr + align - (addr % align)
    }
}

/// `addr` rounded up to the nearest multiple of `align`: the least multiple
/// of `align` that is at least `addr`.
///
/// `align` must be a power of two, and the rounded result must fit in a
/// `u64`.
pub fn align_up(addr: u64, align: u64) -> (r: u64)
    requires
        is_power_of_two(align),
        addr + align - 1 <= u64::MAX,
    ensures
        r % align == 0,
        addr <= r < addr + align,
        r == spec_align_up(addr, align),
{
    proof {
        lemma_power_of_two_mask(addr, align);
        lemma_mod_bound(addr as int, align as int);
    }
    let s = addr + (align - 1);
    proof {
        lemma_power_of_two_mask(s, align);
        lemma_and_not_mask(s, (align - 1) as u64);
        lemma_mod_bound(s as int, align as int);
        lemma_fundamental_div_mod(s as int, align as int);
        lemma_mod_multiples_basic(s as int / align as int, align as int);
        lemma_add_mod_noop(addr as int, align as int - 1, align as int);
        if addr % align == 0 {
            lemma_small_mod((align - 1) as nat, align as nat);
            assert(s % align == align - 1);
        } else {
            lemma_small_mod((align - 1) as nat, align as nat);
            lemma_mod_multiples_vanish(1, addr as int % align as int - 1, align as int);
            lemma_small_mod((addr % align - 1) as nat, align as nat);
            assert(s % align == addr % align - 1);
        }
    }
    s & !(align - 1)
}

} // verus!
