//! A 64-bit flag word, addressed bit by bit from the least significant end.
use vstd::prelude::*;

verus! {

use vstd::arithmetic::power2::{lemma2_to64, pow2};
use vstd::bits::{
    lemma_u64_low_bits_mask_is_mod, lemma_u64_pow2_no_overflow, lemma_u64_shl_is_mul,
    lemma_u64_shr_is_div,
};

/// Mask of the low `width` bits of a word, for `width` in `1..=64`.
pub open spec fn low_mask(width: u32) -> u64 {
    u64::MAX >> ((64 - width) as u32)
}

/// The `width`-bit window of `w` that starts at bit `offset`.
pub open spec fn window(w: u64, offset: usize, width: u32) -> u64 {
    (w >> offset) & low_mask(width)
}

/// Bit `k` of `w`, as 0 or 1.
pub open spec fn bit_of(w: u64, k: usize) -> u64 {
    (w >> k) & 1
}

/// `2^64`, the modulus of a 64-bit word.
pub open spec fn word_modulus() -> int {
    0x1_0000_0000_0000_0000
}

/// An opaque 64-bit flag word.
#[derive(Debug, Clone, Copy, PartialEq, Eq, Structural)]
pub struct Flags(pub u64);

impl View for Flags {
    type V = u64;

    open spec fn view(&self) -> u64 {
        self.0
    }
}

impl From<u64> for Flags {
    fn from(value: u64) -> (r: Flags)
        ensures
            r@ == value,
    {
        Flags(value)
    }
}

impl vstd::std_specs::convert::FromSpecImpl<u64> for Flags {
    open spec fn obeys_from_spec() -> bool {
        true
    }

    open spec fn from_spec(v: u64) -> Flags {
        Flags(v)
    }
}

impl From<Flags> for u64 {
    fn from(value: Flags) -> (r: u64)
        ensures
            r == value@,
    {
        value.0
    }
}

impl vstd::std_specs::convert::FromSpecImpl<Flags> for u64 {
    open spec fn obeys_from_spec() -> bool {
        true
    }

    open spec fn from_spec(v: Flags) -> u64 {
        v.0
    }
}

impl Flags {
    /// The `bits`-wide unsigned value that starts at bit `offset`.
    pub fn value(&self, offset: usize, bits: u32) -> (r: u64)
        requires
            offset < 64,
            1 <= bits <= 64,
        ensures
            r == window(self@, offset, bits),
    {
        (self.0 >> offset) & (u64::MAX >> (64 - bits))
    }

    /// The bit at `offset`, as 0 or 1.
    pub fn bit(&self, offset: usize) -> (r: u64)
        requires
            offset < 64,
        ensures
            r == bit_of(self@, offset),
            r == 0 || r == 1,
    {
        let w = self.0;
        let r = (w >> offset) & 1;
        assert(r == 0 || r == 1) by (bit_vector)
            requires
                r == (w >> offset) & 1,
        ;
        r
    }

    /// Whether the bit at `bit` is set.
    pub fn is_set(&self, bit: usize) -> (r: bool)
        requires
            bit < 64,
        ensures
            r == (bit_of(self@, bit) != 0),
    {
        self.bit(bit) != 0
    }

    /// The flag word that stands for a moment of the clock: the milliseconds
    /// since the Unix epoch, truncated to their low 64 bits. A node with no
    /// flags of its own advertises this as a generation stamp.
    pub fn from_clock(unix_millis: u128) -> (r: Flags)
        ensures
            r@ as int == unix_millis as int % word_modulus(),
    {
        let low: u128 = unix_millis & 0xffff_ffff_ffff_ffff;
        assert(low == unix_millis % 0x1_0000_0000_0000_0000) by (bit_vector)
            requires
                low == unix_millis & 0xffff_ffff_ffff_ffff,
        ;
        Flags(low as u64)
    }
}

/// The window of `width` bits at `offset` is the unsigned integer that bits
/// `offset .. offset + width` of `w` form: its bit `j` is bit `offset + j` of
/// `w` below `width` and 0 from `width` on, and as a number it is `w` divided
/// by `2^offset`, modulo `2^width`.
pub proof fn lemma_window_is_bit_range(w: u64, offset: usize, width: u32)
    requires
        1 <= width <= 64,
        offset + width <= 64,
    ensures
        forall|j: usize|
            j < 64 ==> #[trigger] bit_of(window(w, offset, width), j) == if j < width {
                bit_of(w, (offset + j) as usize)
            } else {
                0
            },
        window(w, offset, width) as int == (w as int / pow2(offset as nat) as int) % (pow2(
            width as nat,
        ) as int),
{
    let o = offset as u64;
    let b = width as u64;
    assert forall|j: usize| j < 64 implies #[trigger] bit_of(window(w, offset, width), j) == if j
        < width {
        bit_of(w, (offset + j) as usize)
    } else {
        0
    } by {
        let k = j as u64;
        assert(((w >> o) & (u64::MAX >> ((64 - b) as u64))) >> k & 1 == if k < b {
            (w >> ((o + k) as u64)) & 1
        } else {
            0
        }) by (bit_vector)
            requires
                1 <= b <= 64,
                o + b <= 64,
                k < 64,
        ;
    }
    lemma_u64_shr_is_div(w, o);
    let s = w >> o;
    if width < 64 {
        lemma_u64_pow2_no_overflow(b as nat);
        lemma_u64_shl_is_mul(1, b);
        assert(u64::MAX >> ((64 - b) as u64) == (1u64 << b) - 1) by (bit_vector)
            requires
                1 <= b < 64,
        ;
        lemma_u64_low_bits_mask_is_mod(s, b as nat);
    } else {
        assert(s & (u64::MAX >> ((64 - b) as u64)) == s) by (bit_vector)
            requires
                b == 64,
        ;
        lemma2_to64();
    }
}

} // verus!
