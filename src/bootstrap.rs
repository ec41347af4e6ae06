//! The bootstrap-info messages: their wire shapes, their domain values, and
//! the conversions between the two.
use vstd::prelude::*;

use crate::codec::{
    addr_bytes, addr_error, decode_socket_addr, decode_snapshot_hash, encode_socket_addr,
    encode_snapshot_hash, read_bytes, snapshot_hash_bytes, snapshot_hash_error,
    lemma_addr_encoding_faithful, lemma_snapshot_hash_encoding_faithful, SnapshotHash, SocketAddr,
};
use crate::error::ConversionError;
use crate::flags::Flags;
use vstd::std_specs::convert::TryFromSpec;

verus! {

/// A node's 32-byte public key.
#[derive(Debug, Clone, Copy, PartialEq, Eq)]
pub struct Pubkey(pub [u8; 32]);

impl Pubkey {
    /// The key made of `bytes`; `bytes` handed back when they are not 32.
    pub fn try_from_vec(bytes: Vec<u8>) -> (r: Result<Pubkey, Vec<u8>>)
        ensures
            match r {
                Ok(k) => bytes@.len() == 32 && k.0@ == bytes@,
                Err(e) => bytes@.len() != 32 && e == bytes,
            },
    {
        if bytes.len() != 32 {
            return Err(bytes);
        }
        let key: [u8; 32] = read_bytes(bytes.as_slice(), 0);
        assert(bytes@.subrange(0, 32) =~= bytes@);
        Ok(Pubkey(key))
    }
}

/// Request for bootstrap info, as the wire carries it.
#[derive(Debug, Clone, PartialEq, Default)]
pub struct BootstrapInfoRequestPb {
    pub shred_version: u32,
    pub version: Option<String>,
    pub hardware_id: Option<u64>,
}

/// A snapshot node, as the wire carries it: the address and the snapshot
/// hash in the nested layout, the key as its bytes.
#[derive(Debug, Clone, PartialEq, Default)]
pub struct SnapshotNodePb {
    pub rpc: Vec<u8>,
    pub pubkey: Vec<u8>,
    pub snapshot_hash: Vec<u8>,
    pub latency: u64,
}

/// A named constant, as the wire carries it.
#[derive(Debug, Clone, PartialEq, Default)]
pub struct ConstantPb {
    pub name: String,
    pub value: String,
}

/// Response with bootstrap info, as the wire carries it.
#[derive(Debug, Clone, PartialEq, Default)]
pub struct BootstrapInfoResponsePb {
    pub node: Option<SnapshotNodePb>,
    pub flags: u64,
    pub contact_info: Vec<u8>,
    pub constants: Vec<ConstantPb>,
}

/// Request for bootstrap info.
#[derive(Debug, Clone, PartialEq, Eq, Default)]
pub struct BootstrapInfoRequest {
    pub shred_version: u16,
    pub version: Option<String>,
    pub hardware_id: Option<u64>,
}

/// A peer that a joining node can take its snapshots from.
#[derive(Debug, Clone, Copy, PartialEq, Eq)]
pub struct BootstrapSnapshotNode {
    pub rpc: SocketAddr,
    pub pubkey: Pubkey,
    pub snapshot_hash: SnapshotHash,
    pub latency_microseconds: u64,
}

/// Response with bootstrap info.
#[derive(Debug, Clone, PartialEq)]
pub struct BootstrapInfoResponse {
    pub node: Option<BootstrapSnapshotNode>,
    pub flags: Flags,
    pub contact_info: Vec<u8>,
    pub constants: Vec<(String, String)>,
}

impl<'a> From<&'a BootstrapInfoRequest> for BootstrapInfoRequestPb {
    fn from(from: &'a BootstrapInfoRequest) -> (r: BootstrapInfoRequestPb)
        ensures
            r.shred_version == from.shred_version,
            r.version == from.version,
            r.hardware_id == from.hardware_id,
    {
        let version = match &from.version {
            Some(v) => Some(v.clone()),
            None => None,
        };
        BootstrapInfoRequestPb {
            shred_version: from.shred_version as u32,
            version,
            hardware_id: from.hardware_id,
        }
    }
}

impl<'a> vstd::std_specs::convert::FromSpecImpl<&'a BootstrapInfoRequest> for BootstrapInfoRequestPb {
    open spec fn obeys_from_spec() -> bool {
        true
    }

    open spec fn from_spec(v: &'a BootstrapInfoRequest) -> BootstrapInfoRequestPb {
        BootstrapInfoRequestPb {
            shred_version: v.shred_version as u32,
            version: v.version,
            hardware_id: v.hardware_id,
        }
    }
}

impl TryFrom<BootstrapInfoRequestPb> for BootstrapInfoRequest {
    type Error = ConversionError;

    fn try_from(from: BootstrapInfoRequestPb) -> (r: Result<BootstrapInfoRequest, ConversionError>)
        ensures
            from.shred_version <= u16::MAX <==> r is Ok,
            match r {
                Ok(q) => q.shred_version == from.shred_version && q.version == from.version
                    && q.hardware_id == from.hardware_id,
                Err(e) => e is TryFromInt,
            },
    {
        match u16::try_from(from.shred_version) {
            Ok(shred_version) => Ok(
                BootstrapInfoRequest {
                    shred_version,
                    version: from.version,
                    hardware_id: from.hardware_id,
                },
            ),
            Err(e) => Err(ConversionError::TryFromInt(e)),
        }
    }
}

impl vstd::std_specs::convert::TryFromSpecImpl<BootstrapInfoRequestPb> for BootstrapInfoRequest {
    open spec fn obeys_try_from_spec() -> bool {
        true
    }

    open spec fn try_from_spec(v: BootstrapInfoRequestPb) -> Result<
        BootstrapInfoRequest,
        ConversionError,
    > {
        match <u16 as TryFromSpec<u32>>::try_from_spec(v.shred_version) {
            Ok(shred_version) => Ok(
                BootstrapInfoRequest {
                    shred_version,
                    version: v.version,
                    hardware_id: v.hardware_id,
                },
            ),
            Err(e) => Err(ConversionError::TryFromInt(e)),
        }
    }
}

/// `pb` carries `n`: the address and the snapshot hash in the nested layout,
/// the key as its 32 bytes, the latency as it is.
pub open spec fn node_on_wire(n: BootstrapSnapshotNode, pb: SnapshotNodePb) -> bool {
    &&& pb.rpc@ == addr_bytes(n.rpc)
    &&& pb.pubkey@ == n.pubkey.0@
    &&& pb.snapshot_hash@ == snapshot_hash_bytes(n.snapshot_hash)
    &&& pb.latency == n.latency_microseconds
}

/// The first error that reading a node out of `pb` meets, if any: the
/// address, then the key, then the snapshot hash.
pub open spec fn node_wire_error(pb: SnapshotNodePb) -> Option<ConversionError> {
    if addr_error(pb.rpc@) is Some {
        Some(ConversionError::Format(addr_error(pb.rpc@)->0))
    } else if pb.pubkey@.len() != 32 {
        Some(ConversionError::PubkeyDeserialization(pb.pubkey))
    } else if snapshot_hash_error(pb.snapshot_hash@) is Some {
        Some(ConversionError::Format(snapshot_hash_error(pb.snapshot_hash@)->0))
    } else {
        None
    }
}

/// `pb` carries the optional node `n`.
pub open spec fn opt_node_on_wire(n: Option<BootstrapSnapshotNode>, pb: Option<SnapshotNodePb>) -> bool {
    match (n, pb) {
        (Some(n), Some(pb)) => node_on_wire(n, pb),
        (None, None) => true,
        _ => false,
    }
}

/// `pb` carries the constants `c`, each pair as a name and a value.
pub open spec fn constants_on_wire(c: Seq<(String, String)>, pb: Seq<ConstantPb>) -> bool {
    &&& c.len() == pb.len()
    &&& forall|i: int| 0 <= i < c.len() ==> #[trigger] c[i].0 == pb[i].name && c[i].1 == pb[i].value
}

/// `pb` carries the response `r`.
pub open spec fn response_on_wire(r: BootstrapInfoResponse, pb: BootstrapInfoResponsePb) -> bool {
    &&& opt_node_on_wire(r.node, pb.node)
    &&& pb.flags == r.flags@
    &&& pb.contact_info == r.contact_info
    &&& constants_on_wire(r.constants@, pb.constants@)
}

/// The error that reading a response out of `pb` meets, if any.
pub open spec fn response_wire_error(pb: BootstrapInfoResponsePb) -> Option<ConversionError> {
    match pb.node {
        Some(node) => node_wire_error(node),
        None => None,
    }
}

impl BootstrapSnapshotNode {
    /// The node as the wire carries it.
    pub fn to_wire(self) -> (r: SnapshotNodePb)
        ensures
            node_on_wire(self, r),
    {
        let rpc = encode_socket_addr(&self.rpc);
        let snapshot_hash = encode_snapshot_hash(&self.snapshot_hash);
        let mut pubkey: Vec<u8> = Vec::new();
        let mut i: usize = 0;
        while i < 32
            invariant
                i <= 32,
                pubkey@ == self.pubkey.0@.take(i as int),
            decreases 32 - i,
        {
            pubkey.push(self.pubkey.0[i]);
            assert(self.pubkey.0@.take(i + 1) =~= self.pubkey.0@.take(i as int).push(
                self.pubkey.0@[i as int],
            ));
            i = i + 1;
        }
        assert(self.pubkey.0@.take(32) =~= self.pubkey.0@);
        SnapshotNodePb { rpc, pubkey, snapshot_hash, latency: self.latency_microseconds }
    }

    /// The node that `pb` carries; the first error met otherwise.
    pub fn from_wire(pb: SnapshotNodePb) -> (r: Result<BootstrapSnapshotNode, ConversionError>)
        ensures
            match r {
                Ok(n) => node_wire_error(pb) is None && node_on_wire(n, pb),
                Err(e) => node_wire_error(pb) == Some(e),
            },
    {
        let rpc = match decode_socket_addr(pb.rpc.as_slice()) {
            Ok(a) => a,
            Err(e) => return Err(ConversionError::Format(e)),
        };
        let pubkey = match Pubkey::try_from_vec(pb.pubkey) {
            Ok(k) => k,
            Err(bytes) => return Err(ConversionError::PubkeyDeserialization(bytes)),
        };
        let snapshot_hash = match decode_snapshot_hash(pb.snapshot_hash.as_slice()) {
            Ok(h) => h,
            Err(e) => return Err(ConversionError::Format(e)),
        };
        Ok(
            BootstrapSnapshotNode {
                rpc,
                pubkey,
                snapshot_hash,
                latency_microseconds: pb.latency,
            },
        )
    }
}

impl TryFrom<BootstrapSnapshotNode> for SnapshotNodePb {
    type Error = ConversionError;

    /// Never fails: every domain node has a wire form.
    fn try_from(from: BootstrapSnapshotNode) -> (r: Result<SnapshotNodePb, ConversionError>)
        ensures
            r matches Ok(pb) && node_on_wire(from, pb),
    {
        Ok(from.to_wire())
    }
}

/// The trait-level relation is left unstated: the contract of `try_from`
/// above says what comes out.
impl vstd::std_specs::convert::TryFromSpecImpl<BootstrapSnapshotNode> for SnapshotNodePb {
    open spec fn obeys_try_from_spec() -> bool {
        false
    }

    open spec fn try_from_spec(v: BootstrapSnapshotNode) -> Result<SnapshotNodePb, ConversionError> {
        arbitrary()
    }
}

impl TryFrom<SnapshotNodePb> for BootstrapSnapshotNode {
    type Error = ConversionError;

    fn try_from(from: SnapshotNodePb) -> (r: Result<BootstrapSnapshotNode, ConversionError>)
        ensures
            match r {
                Ok(n) => node_wire_error(from) is None && node_on_wire(n, from),
                Err(e) => node_wire_error(from) == Some(e),
            },
    {
        BootstrapSnapshotNode::from_wire(from)
    }
}

/// The trait-level relation is left unstated: the contract of `try_from`
/// above says what comes out.
impl vstd::std_specs::convert::TryFromSpecImpl<SnapshotNodePb> for BootstrapSnapshotNode {
    open spec fn obeys_try_from_spec() -> bool {
        false
    }

    open spec fn try_from_spec(v: SnapshotNodePb) -> Result<BootstrapSnapshotNode, ConversionError> {
        arbitrary()
    }
}

impl BootstrapInfoResponse {
    /// The response as the wire carries it.
    pub fn to_wire(self) -> (r: BootstrapInfoResponsePb)
        ensures
            response_on_wire(self, r),
    {
        let node = match self.node {
            Some(n) => Some(n.to_wire()),
            None => None,
        };
        let mut constants: Vec<ConstantPb> = Vec::new();
        let mut i: usize = 0;
        while i < self.constants.len()
            invariant
                i <= self.constants@.len(),
                constants_on_wire(self.constants@.take(i as int), constants@),
            decreases self.constants@.len() - i,
        {
            let pair = &self.constants[i];
            let c = ConstantPb { name: pair.0.clone(), value: pair.1.clone() };
            constants.push(c);
            assert(self.constants@.take(i + 1)[i as int] == self.constants@[i as int]);
            i = i + 1;
        }
        assert(self.constants@.take(self.constants@.len() as int) =~= self.constants@);
        BootstrapInfoResponsePb {
            node,
            flags: u64::from(self.flags),
            contact_info: self.contact_info,
            constants,
        }
    }

    /// The response that `pb` carries; the first error met in its node
    /// otherwise.
    pub fn from_wire(pb: BootstrapInfoResponsePb) -> (r: Result<BootstrapInfoResponse, ConversionError>)
        ensures
            match r {
                Ok(d) => response_wire_error(pb) is None && response_on_wire(d, pb),
                Err(e) => response_wire_error(pb) == Some(e),
            },
    {
        let node = match pb.node {
            Some(n) => match BootstrapSnapshotNode::from_wire(n) {
                Ok(n) => Some(n),
                Err(e) => return Err(e),
            },
            None => None,
        };
        let mut constants: Vec<(String, String)> = Vec::new();
        let mut i: usize = 0;
        while i < pb.constants.len()
            invariant
                i <= pb.constants@.len(),
                constants_on_wire(constants@, pb.constants@.take(i as int)),
            decreases pb.constants@.len() - i,
        {
            let c = &pb.constants[i];
            constants.push((c.name.clone(), c.value.clone()));
            assert(pb.constants@.take(i + 1)[i as int] == pb.constants@[i as int]);
            i = i + 1;
        }
        assert(pb.constants@.take(pb.constants@.len() as int) =~= pb.constants@);
        Ok(
            BootstrapInfoResponse {
                node,
                flags: Flags::from(pb.flags),
                contact_info: pb.contact_info,
                constants,
            },
        )
    }
}

impl TryFrom<BootstrapInfoResponse> for BootstrapInfoResponsePb {
    type Error = ConversionError;

    /// Never fails: every domain response has a wire form.
    fn try_from(from: BootstrapInfoResponse) -> (r: Result<BootstrapInfoResponsePb, ConversionError>)
        ensures
            r matches Ok(pb) && response_on_wire(from, pb),
    {
        Ok(from.to_wire())
    }
}

/// The trait-level relation is left unstated: the contract of `try_from`
/// above says what comes out.
impl vstd::std_specs::convert::TryFromSpecImpl<BootstrapInfoResponse> for BootstrapInfoResponsePb {
    open spec fn obeys_try_from_spec() -> bool {
        false
    }

    open spec fn try_from_spec(v: BootstrapInfoResponse) -> Result<BootstrapInfoResponsePb, ConversionError> {
        arbitrary()
    }
}

impl TryFrom<BootstrapInfoResponsePb> for BootstrapInfoResponse {
    type Error = ConversionError;

    fn try_from(from: BootstrapInfoResponsePb) -> (r: Result<BootstrapInfoResponse, ConversionError>)
        ensures
            match r {
                Ok(d) => response_wire_error(from) is None && response_on_wire(d, from),
                Err(e) => response_wire_error(from) == Some(e),
            },
    {
        BootstrapInfoResponse::from_wire(from)
    }
}

/// The trait-level relation is left unstated: the contract of `try_from`
/// above says what comes out.
impl vstd::std_specs::convert::TryFromSpecImpl<BootstrapInfoResponsePb> for BootstrapInfoResponse {
    open spec fn obeys_try_from_spec() -> bool {
        false
    }

    open spec fn try_from_spec(v: BootstrapInfoResponsePb) -> Result<BootstrapInfoResponse, ConversionError> {
        arbitrary()
    }
}

/// A node goes over the wire and comes back unchanged: the message that
/// carries `n` reads without error, and any node read out of it is `n`.
pub proof fn lemma_node_round_trip(n: BootstrapSnapshotNode, pb: SnapshotNodePb, m: BootstrapSnapshotNode)
    requires
        node_on_wire(n, pb),
    ensures
        node_wire_error(pb) is None,
        node_on_wire(m, pb) ==> m == n,
{
    lemma_addr_encoding_faithful(n.rpc, m.rpc);
    lemma_snapshot_hash_encoding_faithful(n.snapshot_hash, m.snapshot_hash);
    if node_on_wire(m, pb) {
        assert(m.pubkey.0 =~= n.pubkey.0);
    }
}

} // verus!
