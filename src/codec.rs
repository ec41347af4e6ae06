//! The fixed binary layout that packs composite values into the opaque byte
//! fields of the wire messages: integers little-endian, byte arrays as they
//! stand, an address behind a one-byte tag.
use vstd::prelude::*;

verus! {

/// A 32-byte hash.
#[derive(Debug, Clone, Copy, PartialEq, Eq)]
pub struct Hash32(pub [u8; 32]);

/// A socket address: the octets of an IPv4 or IPv6 address and a port.
#[allow(inconsistent_fields)]
#[derive(Debug, Clone, Copy, PartialEq, Eq)]
pub enum SocketAddr {
    V4 { ip: [u8; 4], port: u16 },
    V6 { ip: [u8; 16], port: u16 },
}

/// The hashes of a full snapshot and of an incremental one, each with its slot.
#[derive(Debug, Clone, Copy, PartialEq, Eq)]
pub struct SnapshotHash {
    pub full: (u64, Hash32),
    pub incr: (u64, Hash32),
}

/// Why a byte field does not hold a value of the layout.
#[derive(Debug, Clone, Copy, PartialEq, Eq, Structural)]
pub enum DecodeError {
    /// The bytes end before the value does.
    UnexpectedEnd,
    /// The tag byte names no variant.
    InvalidTag(u8),
    /// Bytes are left over after the value.
    TrailingBytes,
}

/// Length of an encoded IPv4 address: tag, four octets, port.
pub const ADDR_V4_LEN: usize = 7;

/// Length of an encoded IPv6 address: tag, sixteen octets, port.
pub const ADDR_V6_LEN: usize = 19;

/// Length of an encoded snapshot hash: two slots and two hashes.
pub const SNAPSHOT_HASH_LEN: usize = 80;

/// The two little-endian bytes of `v`.
pub open spec fn u16_le(v: u16) -> Seq<u8> {
    seq![(v & 0xff) as u8, (v >> 8u16) as u8]
}

/// The eight little-endian bytes of `v`.
pub open spec fn u64_le(v: u64) -> Seq<u8> {
    Seq::new(8, |i: int| ((v >> ((8 * i) as u64)) & 0xff) as u8)
}

/// The encoding of an address.
pub open spec fn addr_bytes(a: SocketAddr) -> Seq<u8> {
    match a {
        SocketAddr::V4 { ip, port } => seq![0u8] + ip@ + u16_le(port),
        SocketAddr::V6 { ip, port } => seq![1u8] + ip@ + u16_le(port),
    }
}

/// The encoding of a slot with its hash.
pub open spec fn slot_hash_bytes(p: (u64, Hash32)) -> Seq<u8> {
    u64_le(p.0) + p.1.0@
}

/// The encoding of a snapshot hash: the full pair, then the incremental one.
pub open spec fn snapshot_hash_bytes(h: SnapshotHash) -> Seq<u8> {
    slot_hash_bytes(h.full) + slot_hash_bytes(h.incr)
}

/// Why `b` holds no encoded value of length `len`, if it does not.
pub open spec fn length_error(b: Seq<u8>, len: nat) -> Option<DecodeError> {
    if b.len() < len {
        Some(DecodeError::UnexpectedEnd)
    } else if b.len() > len {
        Some(DecodeError::TrailingBytes)
    } else {
        None
    }
}

/// Why `b` holds no encoded address, if it does not.
pub open spec fn addr_error(b: Seq<u8>) -> Option<DecodeError> {
    if b.len() == 0 {
        Some(DecodeError::UnexpectedEnd)
    } else if b[0] == 0 {
        length_error(b, ADDR_V4_LEN as nat)
    } else if b[0] == 1 {
        length_error(b, ADDR_V6_LEN as nat)
    } else {
        Some(DecodeError::InvalidTag(b[0]))
    }
}

/// Why `b` holds no encoded snapshot hash, if it does not.
pub open spec fn snapshot_hash_error(b: Seq<u8>) -> Option<DecodeError> {
    length_error(b, SNAPSHOT_HASH_LEN as nat)
}

fn push_u16_le(out: &mut Vec<u8>, v: u16)
    ensures
        final(out)@ == old(out)@ + u16_le(v),
{
    let lo: u8 = (v & 0xff) as u8;
    let hi: u8 = (v >> 8u16) as u8;
    out.push(lo);
    out.push(hi);
    assert(final(out)@ =~= old(out)@ + u16_le(v));
}

fn read_u16_le(b: &[u8], at: usize) -> (r: u16)
    requires
        at + 2 <= b@.len(),
    ensures
        u16_le(r) == b@.subrange(at as int, at + 2),
{
    let lo: u16 = b[at] as u16;
    let hi: u16 = b[at + 1] as u16;
    let r: u16 = lo | (hi << 8u16);
    assert((r & 0xff) == lo && (r >> 8u16) == hi) by (bit_vector)
        requires
            lo < 256,
            hi < 256,
            r == lo | (hi << 8u16),
    ;
    assert(u16_le(r) =~= b@.subrange(at as int, at + 2));
    r
}

fn push_u64_le(out: &mut Vec<u8>, v: u64)
    ensures
        final(out)@ == old(out)@ + u64_le(v),
{
    let ghost start = out@;
    let mut i: u64 = 0;
    while i < 8
        invariant
            i <= 8,
            out@ == start + u64_le(v).take(i as int),
        decreases 8 - i,
    {
        let byte: u8 = ((v >> (8 * i)) & 0xff) as u8;
        out.push(byte);
        assert(u64_le(v).take(i + 1) =~= u64_le(v).take(i as int).push(byte));
        i = i + 1;
    }
    assert(u64_le(v).take(8) =~= u64_le(v));
}

proof fn lemma_or_byte(r: u64, x: u64, i: u64, k: u64)
    by (bit_vector)
    requires
        i < 8,
        x < 256,
        k < 8,
        r >> (8 * i) == 0,
    ensures
        k < i ==> ((r | (x << (8 * i))) >> (8 * k)) & 0xff == (r >> (8 * k)) & 0xff,
        k == i ==> ((r | (x << (8 * i))) >> (8 * k)) & 0xff == x,
        i < 7 ==> (r | (x << (8 * i))) >> (8 * (i + 1)) == 0,
{
}

fn read_u64_le(b: &[u8], at: usize) -> (r: u64)
    requires
        at + 8 <= b@.len(),
    ensures
        u64_le(r) == b@.subrange(at as int, at + 8),
{
    let _len: usize = b.len();
    let mut r: u64 = 0;
    let mut i: u64 = 0;
    assert(0u64 >> 0u64 == 0) by (bit_vector);
    while i < 8
        invariant
            i <= 8,
            at + 8 <= b@.len() <= usize::MAX,
            i < 8 ==> r >> (8 * i) == 0,
            forall|k: int| 0 <= k < i ==> #[trigger] u64_le(r)[k] == b@[at + k],
        decreases 8 - i,
    {
        let x: u64 = b[at + i as usize] as u64;
        let ghost old_r = r;
        r = r | (x << (8 * i));
        proof {
            assert forall|k: int| 0 <= k <= i implies #[trigger] u64_le(r)[k] == b@[at + k] by {
                lemma_or_byte(old_r, x, i, k as u64);
                assert(((8 * k) as u64) == 8 * (k as u64));
                if k < i {
                    assert(u64_le(old_r)[k] == b@[at + k]);
                }
            }
            lemma_or_byte(old_r, x, i, 0);
        }
        i = i + 1;
    }
    assert(u64_le(r) =~= b@.subrange(at as int, at + 8));
    r
}

fn push_bytes<const N: usize>(out: &mut Vec<u8>, a: &[u8; N])
    ensures
        final(out)@ == old(out)@ + a@,
{
    let ghost start = out@;
    let mut i: usize = 0;
    while i < N
        invariant
            i <= N,
            a@.len() == N,
            out@ == start + a@.take(i as int),
        decreases N - i,
    {
        out.push(a[i]);
        assert(a@.take(i + 1) =~= a@.take(i as int).push(a@[i as int]));
        i = i + 1;
    }
    assert(a@.take(N as int) =~= a@);
}

pub(crate) fn read_bytes<const N: usize>(b: &[u8], at: usize) -> (r: [u8; N])
    requires
        at + N <= b@.len(),
    ensures
        r@ == b@.subrange(at as int, at + N),
{
    let _len: usize = b.len();
    let mut r: [u8; N] = [0u8; N];
    let mut i: usize = 0;
    while i < N
        invariant
            i <= N,
            at + N <= b@.len() <= usize::MAX,
            r@.len() == N,
            forall|k: int| 0 <= k < i ==> #[trigger] r@[k] == b@[at + k],
        decreases N - i,
    {
        r[i] = b[at + i];
        i = i + 1;
    }
    assert(r@ =~= b@.subrange(at as int, at + N));
    r
}

fn push_slot_hash(out: &mut Vec<u8>, p: &(u64, Hash32))
    ensures
        final(out)@ == old(out)@ + slot_hash_bytes(*p),
{
    push_u64_le(out, p.0);
    push_bytes(out, &p.1.0);
    assert(final(out)@ =~= old(out)@ + slot_hash_bytes(*p));
}

fn read_slot_hash(b: &[u8], at: usize) -> (r: (u64, Hash32))
    requires
        at + 40 <= b@.len(),
    ensures
        slot_hash_bytes(r) == b@.subrange(at as int, at + 40),
{
    let _len: usize = b.len();
    let slot = read_u64_le(b, at);
    let hash: [u8; 32] = read_bytes(b, at + 8);
    let r = (slot, Hash32(hash));
    assert(slot_hash_bytes(r) =~= b@.subrange(at as int, at + 40));
    r
}

/// The bytes of an address.
pub fn encode_socket_addr(a: &SocketAddr) -> (r: Vec<u8>)
    ensures
        r@ == addr_bytes(*a),
{
    let mut out: Vec<u8> = Vec::new();
    match a {
        SocketAddr::V4 { ip, port } => {
            out.push(0u8);
            push_bytes(&mut out, ip);
            push_u16_le(&mut out, *port);
        },
        SocketAddr::V6 { ip, port } => {
            out.push(1u8);
            push_bytes(&mut out, ip);
            push_u16_le(&mut out, *port);
        },
    }
    assert(out@ =~= addr_bytes(*a));
    out
}

/// The address that `b` encodes; an error when `b` is short, long, or
/// tagged with no variant.
pub fn decode_socket_addr(b: &[u8]) -> (r: Result<SocketAddr, DecodeError>)
    ensures
        match r {
            Ok(a) => addr_error(b@) is None && addr_bytes(a) == b@,
            Err(e) => addr_error(b@) == Some(e),
        },
{
    let n = b.len();
    if n == 0 {
        return Err(DecodeError::UnexpectedEnd);
    }
    let tag = b[0];
    if tag == 0 {
        if n < ADDR_V4_LEN {
            Err(DecodeError::UnexpectedEnd)
        } else if n > ADDR_V4_LEN {
            Err(DecodeError::TrailingBytes)
        } else {
            let ip: [u8; 4] = read_bytes(b, 1);
            let port = read_u16_le(b, 5);
            let a = SocketAddr::V4 { ip, port };
            assert(addr_bytes(a) =~= b@);
            Ok(a)
        }
    } else if tag == 1 {
        if n < ADDR_V6_LEN {
            Err(DecodeError::UnexpectedEnd)
        } else if n > ADDR_V6_LEN {
            Err(DecodeError::TrailingBytes)
        } else {
            let ip: [u8; 16] = read_bytes(b, 1);
            let port = read_u16_le(b, 17);
            let a = SocketAddr::V6 { ip, port };
            assert(addr_bytes(a) =~= b@);
            Ok(a)
        }
    } else {
        Err(DecodeError::InvalidTag(tag))
    }
}

/// The bytes of a snapshot hash.
pub fn encode_snapshot_hash(h: &SnapshotHash) -> (r: Vec<u8>)
    ensures
        r@ == snapshot_hash_bytes(*h),
{
    let mut out: Vec<u8> = Vec::new();
    push_slot_hash(&mut out, &h.full);
    push_slot_hash(&mut out, &h.incr);
    assert(out@ =~= snapshot_hash_bytes(*h));
    out
}

/// The snapshot hash that `b` encodes; an error when `b` is short or long.
pub fn decode_snapshot_hash(b: &[u8]) -> (r: Result<SnapshotHash, DecodeError>)
    ensures
        match r {
            Ok(h) => snapshot_hash_error(b@) is None && snapshot_hash_bytes(h) == b@,
            Err(e) => snapshot_hash_error(b@) == Some(e),
        },
{
    let n = b.len();
    if n < SNAPSHOT_HASH_LEN {
        Err(DecodeError::UnexpectedEnd)
    } else if n > SNAPSHOT_HASH_LEN {
        Err(DecodeError::TrailingBytes)
    } else {
        let full = read_slot_hash(b, 0);
        let incr = read_slot_hash(b, 40);
        let h = SnapshotHash { full, incr };
        assert(snapshot_hash_bytes(h) =~= b@);
        Ok(h)
    }
}

proof fn lemma_u16_le_injective(x: u16, y: u16)
    requires
        u16_le(x) == u16_le(y),
    ensures
        x == y,
{
    assert(u16_le(x)[0] == u16_le(y)[0] && u16_le(x)[1] == u16_le(y)[1]);
    assert(((x & 0xff) as u8 == (y & 0xff) as u8 && (x >> 8u16) as u8 == (y >> 8u16) as u8) ==> x
        == y) by (bit_vector);
}

proof fn lemma_u64_bytes_determine(x: u64, y: u64)
    by (bit_vector)
    requires
        ((x >> 0u64) & 0xff) as u8 == ((y >> 0u64) & 0xff) as u8,
        ((x >> 8u64) & 0xff) as u8 == ((y >> 8u64) & 0xff) as u8,
        ((x >> 16u64) & 0xff) as u8 == ((y >> 16u64) & 0xff) as u8,
        ((x >> 24u64) & 0xff) as u8 == ((y >> 24u64) & 0xff) as u8,
        ((x >> 32u64) & 0xff) as u8 == ((y >> 32u64) & 0xff) as u8,
        ((x >> 40u64) & 0xff) as u8 == ((y >> 40u64) & 0xff) as u8,
        ((x >> 48u64) & 0xff) as u8 == ((y >> 48u64) & 0xff) as u8,
        ((x >> 56u64) & 0xff) as u8 == ((y >> 56u64) & 0xff) as u8,
    ensures
        x == y,
{
}

proof fn lemma_u64_le_injective(x: u64, y: u64)
    requires
        u64_le(x) == u64_le(y),
    ensures
        x == y,
{
    assert(u64_le(x)[0] == ((x >> 0u64) & 0xff) as u8);
    assert(u64_le(y)[0] == ((y >> 0u64) & 0xff) as u8);
    assert(u64_le(x)[1] == ((x >> 8u64) & 0xff) as u8);
    assert(u64_le(y)[1] == ((y >> 8u64) & 0xff) as u8);
    assert(u64_le(x)[2] == ((x >> 16u64) & 0xff) as u8);
    assert(u64_le(y)[2] == ((y >> 16u64) & 0xff) as u8);
    assert(u64_le(x)[3] == ((x >> 24u64) & 0xff) as u8);
    assert(u64_le(y)[3] == ((y >> 24u64) & 0xff) as u8);
    assert(u64_le(x)[4] == ((x >> 32u64) & 0xff) as u8);
    assert(u64_le(y)[4] == ((y >> 32u64) & 0xff) as u8);
    assert(u64_le(x)[5] == ((x >> 40u64) & 0xff) as u8);
    assert(u64_le(y)[5] == ((y >> 40u64) & 0xff) as u8);
    assert(u64_le(x)[6] == ((x >> 48u64) & 0xff) as u8);
    assert(u64_le(y)[6] == ((y >> 48u64) & 0xff) as u8);
    assert(u64_le(x)[7] == ((x >> 56u64) & 0xff) as u8);
    assert(u64_le(y)[7] == ((y >> 56u64) & 0xff) as u8);
    lemma_u64_bytes_determine(x, y);
}

proof fn lemma_slot_hash_injective(p: (u64, Hash32), q: (u64, Hash32))
    requires
        slot_hash_bytes(p) == slot_hash_bytes(q),
    ensures
        p == q,
{
    let bp = slot_hash_bytes(p);
    let bq = slot_hash_bytes(q);
    assert(bp.subrange(0, 8) =~= u64_le(p.0));
    assert(bq.subrange(0, 8) =~= u64_le(q.0));
    lemma_u64_le_injective(p.0, q.0);
    assert(bp.subrange(8, 40) =~= p.1.0@);
    assert(bq.subrange(8, 40) =~= q.1.0@);
    assert(p.1.0 =~= q.1.0);
}

/// Every address decodes from its encoding, and two addresses with the same
/// encoding are equal: decoding the bytes of `a` gives back `a`.
pub proof fn lemma_addr_encoding_faithful(a: SocketAddr, c: SocketAddr)
    ensures
        addr_error(addr_bytes(a)) is None,
        addr_bytes(c) == addr_bytes(a) ==> c == a,
{
    let ba = addr_bytes(a);
    let bc = addr_bytes(c);
    if bc == ba {
        assert(bc[0] == ba[0]);
        match (a, c) {
            (SocketAddr::V4 { ip: ia, port: pa }, SocketAddr::V4 { ip: ic, port: pc }) => {
                assert(ba.subrange(1, 5) =~= ia@);
                assert(bc.subrange(1, 5) =~= ic@);
                assert(ia =~= ic);
                assert(ba.subrange(5, 7) =~= u16_le(pa));
                assert(bc.subrange(5, 7) =~= u16_le(pc));
                lemma_u16_le_injective(pa, pc);
            },
            (SocketAddr::V6 { ip: ia, port: pa }, SocketAddr::V6 { ip: ic, port: pc }) => {
                assert(ba.subrange(1, 17) =~= ia@);
                assert(bc.subrange(1, 17) =~= ic@);
                assert(ia =~= ic);
                assert(ba.subrange(17, 19) =~= u16_le(pa));
                assert(bc.subrange(17, 19) =~= u16_le(pc));
                lemma_u16_le_injective(pa, pc);
            },
            _ => {},
        }
    }
}

/// Every snapshot hash decodes from its encoding, and two snapshot hashes
/// with the same encoding are equal: decoding the bytes of `h` gives back `h`.
pub proof fn lemma_snapshot_hash_encoding_faithful(h: SnapshotHash, g: SnapshotHash)
    ensures
        snapshot_hash_error(snapshot_hash_bytes(h)) is None,
        snapshot_hash_bytes(g) == snapshot_hash_bytes(h) ==> g == h,
{
    let bh = snapshot_hash_bytes(h);
    let bg = snapshot_hash_bytes(g);
    if bg == bh {
        assert(bh.subrange(0, 40) =~= slot_hash_bytes(h.full));
        assert(bg.subrange(0, 40) =~= slot_hash_bytes(g.full));
        assert(bh.subrange(40, 80) =~= slot_hash_bytes(h.incr));
        assert(bg.subrange(40, 80) =~= slot_hash_bytes(g.incr));
        lemma_slot_hash_injective(h.full, g.full);
        lemma_slot_hash_injective(h.incr, g.incr);
    }
}

} // verus!
