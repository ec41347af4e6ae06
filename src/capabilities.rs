//! The capability vocabulary that a peer advertises in its flag word.
use vstd::prelude::*;

use crate::flags::{bit_of, Flags};
use vstd::std_specs::convert::FromSpec;
use vstd::string::StrSliceExecFns;

verus! {

/// The peer belongs to mainnet.
pub const CAP_MAINNET: usize = 0;

/// The peer answers requests for bootstrap info.
pub const CAP_GET_BOOTSTRAP_INFO: usize = 1;

/// The peer processes a PoH core configuration.
pub const CAP_PROCESS_POH_CORE_CONFIG: usize = 2;

/// The peer resolves the CPU core of its PoH thread.
pub const CAP_RESOLVE_POH_CPU_CORE: usize = 3;

/// The peer answers heartbeats.
pub const CAP_HEARTBEAT: usize = 4;

/// The lowercase hexadecimal digit of `n`, for `n < 16`.
pub open spec fn hex_digit(n: u64) -> char {
    seq!['0', '1', '2', '3', '4', '5', '6', '7', '8', '9', 'a', 'b', 'c', 'd', 'e', 'f'][n as int]
}

/// The sixteen lowercase hexadecimal digits of `w`, most significant first.
pub open spec fn hex_word(w: u64) -> Seq<char> {
    Seq::new(16, |i: int| hex_digit((w >> ((60 - 4 * i) as u64)) & 0xf))
}

/// The value of a lowercase hexadecimal digit; `None` for any other char.
pub open spec fn hex_value(c: char) -> Option<u64> {
    if '0' <= c <= '9' {
        Some((c as u32 - '0' as u32) as u64)
    } else if 'a' <= c <= 'f' {
        Some((c as u32 - 'a' as u32 + 10) as u64)
    } else {
        None
    }
}

/// `s` is sixteen lowercase hexadecimal digits.
pub open spec fn is_hex_word(s: Seq<char>) -> bool {
    &&& s.len() == 16
    &&& forall|i: int| 0 <= i < 16 ==> #[trigger] hex_value(s[i]) is Some
}

/// The word whose hexadecimal digits, most significant first, are `s`.
pub open spec fn hex_digits_word(s: Seq<char>) -> u64
    decreases s.len(),
{
    if s.len() == 0 {
        0
    } else {
        (hex_digits_word(s.drop_last()) << 4u64) | hex_value(s.last())->0
    }
}

fn hex_digit_value(c: char) -> (r: Option<u64>)
    ensures
        r == hex_value(c),
{
    if '0' <= c && c <= '9' {
        Some((c as u32 - '0' as u32) as u64)
    } else if 'a' <= c && c <= 'f' {
        Some((c as u32 - 'a' as u32 + 10) as u64)
    } else {
        None
    }
}

/// Relies on std's `{:016x}` formatting: the lowercase hexadecimal digits of
/// the word, zero-padded to sixteen, most significant first.
#[verifier::external_body]
fn format_hex_word(w: u64) -> (r: String)
    ensures
        r@ == hex_word(w),
{
    format!("{:016x}", w)
}

/// The set of optional operations that a peer supports, one bit each.
#[derive(Debug, Clone, Copy, PartialEq, Eq, Structural)]
pub struct ServiceCapabilities {
    pub flags: Flags,
}

impl View for ServiceCapabilities {
    type V = u64;

    open spec fn view(&self) -> u64 {
        self.flags@
    }
}

impl From<u64> for ServiceCapabilities {
    fn from(capabilities: u64) -> (r: ServiceCapabilities)
        ensures
            r@ == capabilities,
    {
        ServiceCapabilities { flags: Flags::from(capabilities) }
    }
}

impl vstd::std_specs::convert::FromSpecImpl<u64> for ServiceCapabilities {
    open spec fn obeys_from_spec() -> bool {
        true
    }

    open spec fn from_spec(v: u64) -> ServiceCapabilities {
        ServiceCapabilities { flags: Flags(v) }
    }
}

impl From<ServiceCapabilities> for u64 {
    fn from(capabilities: ServiceCapabilities) -> (r: u64)
        ensures
            r == capabilities@,
    {
        u64::from(capabilities.flags)
    }
}

impl vstd::std_specs::convert::FromSpecImpl<ServiceCapabilities> for u64 {
    open spec fn obeys_from_spec() -> bool {
        true
    }

    open spec fn from_spec(v: ServiceCapabilities) -> u64 {
        v.flags.0
    }
}

impl ServiceCapabilities {
    /// Whether the capability at bit index `capability` is advertised.
    pub fn is_supported(&self, capability: usize) -> (r: bool)
        requires
            capability < 64,
        ensures
            r == (bit_of(self@, capability) != 0),
    {
        self.flags.is_set(capability)
    }

    /// The word as sixteen lowercase hexadecimal digits, zero-padded, for
    /// logs and handshake diagnostics.
    pub fn to_string(&self) -> (r: String)
        ensures
            r@ == hex_word(self@),
    {
        format_hex_word(self.flags.0)
    }

    /// The capabilities that sixteen lowercase hexadecimal digits render;
    /// `None` for any other string.
    pub fn from_hex(s: &str) -> (r: Option<ServiceCapabilities>)
        ensures
            r is Some <==> is_hex_word(s@),
            r matches Some(c) ==> c@ == hex_digits_word(s@),
    {
        if s.unicode_len() != 16 {
            return None;
        }
        let mut acc: u64 = 0;
        let mut i: usize = 0;
        while i < 16
            invariant
                i <= 16,
                s@.len() == 16,
                acc == hex_digits_word(s@.take(i as int)),
                forall|j: int| 0 <= j < i ==> #[trigger] hex_value(s@[j]) is Some,
            decreases 16 - i,
        {
            let c = s.get_char(i);
            let d = match hex_digit_value(c) {
                Some(d) => d,
                None => return None,
            };
            assert(s@.take(i + 1).drop_last() =~= s@.take(i as int));
            acc = (acc << 4u64) | d;
            i = i + 1;
        }
        assert(s@.take(16) =~= s@);
        Some(ServiceCapabilities::from(acc))
    }
}

/// Capabilities made from a word hold that word, so capability `i` is bit
/// `i` of it; and converting them back gives the word unchanged.
pub proof fn lemma_word_round_trip(w: u64)
    ensures
        <ServiceCapabilities as FromSpec<u64>>::from_spec(w)@ == w,
        <u64 as FromSpec<ServiceCapabilities>>::from_spec(
            <ServiceCapabilities as FromSpec<u64>>::from_spec(w),
        ) == w,
{
}

proof fn lemma_hex_digit_value(n: u64)
    requires
        n < 16,
    ensures
        hex_value(hex_digit(n)) == Some(n),
{
    if n == 0 {
        assert(hex_digit(n) == '0');
    } else if n == 1 {
        assert(hex_digit(n) == '1');
    } else if n == 2 {
        assert(hex_digit(n) == '2');
    } else if n == 3 {
        assert(hex_digit(n) == '3');
    } else if n == 4 {
        assert(hex_digit(n) == '4');
    } else if n == 5 {
        assert(hex_digit(n) == '5');
    } else if n == 6 {
        assert(hex_digit(n) == '6');
    } else if n == 7 {
        assert(hex_digit(n) == '7');
    } else if n == 8 {
        assert(hex_digit(n) == '8');
    } else if n == 9 {
        assert(hex_digit(n) == '9');
    } else if n == 10 {
        assert(hex_digit(n) == 'a');
    } else if n == 11 {
        assert(hex_digit(n) == 'b');
    } else if n == 12 {
        assert(hex_digit(n) == 'c');
    } else if n == 13 {
        assert(hex_digit(n) == 'd');
    } else if n == 14 {
        assert(hex_digit(n) == 'e');
    } else if n == 15 {
        assert(hex_digit(n) == 'f');
    }
}

proof fn lemma_hex_prefix(w: u64, k: int)
    requires
        0 <= k < 16,
    ensures
        hex_digits_word(hex_word(w).take(k + 1)) == w >> ((60 - 4 * k) as u64),
    decreases k,
{
    let t = (60 - 4 * k) as u64;
    let d = (w >> t) & 0xf;
    assert(d < 16) by (bit_vector)
        requires
            d == (w >> t) & 0xf,
    ;
    lemma_hex_digit_value(d);
    let p = hex_word(w).take(k + 1);
    assert(p.drop_last() =~= hex_word(w).take(k));
    assert(p.last() == hex_digit(d));
    assert(hex_digits_word(p) == (hex_digits_word(hex_word(w).take(k)) << 4u64) | d);
    if k == 0 {
        assert(hex_word(w).take(0) =~= Seq::<char>::empty());
        assert(hex_digits_word(hex_word(w).take(0)) == 0);
        assert((0u64 << 4u64) | ((w >> 60u64) & 0xf) == w >> 60u64) by (bit_vector);
    } else {
        lemma_hex_prefix(w, k - 1);
        assert(hex_word(w).take(k - 1 + 1) == hex_word(w).take(k));
        let u = (64 - 4 * k) as u64;
        assert(u == t + 4);
        assert(((w >> u) << 4u64) | ((w >> t) & 0xf) == w >> t) by (bit_vector)
            requires
                u == t + 4,
                t <= 56,
        ;
    }
}

/// The rendering of a word parses back to that word: it is sixteen
/// lowercase hexadecimal digits, and their value is the word.
pub proof fn lemma_hex_round_trip(w: u64)
    ensures
        is_hex_word(hex_word(w)),
        hex_digits_word(hex_word(w)) == w,
{
    assert forall|i: int| 0 <= i < 16 implies #[trigger] hex_value(hex_word(w)[i]) is Some by {
        let t = (60 - 4 * i) as u64;
        let d = (w >> t) & 0xf;
        assert(d < 16) by (bit_vector)
            requires
                d == (w >> t) & 0xf,
        ;
        lemma_hex_digit_value(d);
    }
    lemma_hex_prefix(w, 15);
    assert(hex_word(w).take(16) =~= hex_word(w));
    assert(w >> 0u64 == w) by (bit_vector);
}

} // verus!
