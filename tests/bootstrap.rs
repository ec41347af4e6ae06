use allnodes_service_protos::codec::{encode_snapshot_hash, encode_socket_addr};
use allnodes_service_protos::{
    BootstrapInfoRequest, BootstrapInfoRequestPb, BootstrapInfoResponse, BootstrapInfoResponsePb,
    BootstrapSnapshotNode, ConstantPb, ConversionError, DecodeError, Error, Flags, Hash32, Pubkey,
    SnapshotHash, SnapshotNodePb, SocketAddr,
};

fn node() -> BootstrapSnapshotNode {
    let mut key = [0u8; 32];
    for (i, b) in key.iter_mut().enumerate() {
        *b = 200 - i as u8;
    }
    BootstrapSnapshotNode {
        rpc: SocketAddr::V4 { ip: [192, 168, 1, 20], port: 8899 },
        pubkey: Pubkey(key),
        snapshot_hash: SnapshotHash {
            full: (300_000_000, Hash32([1u8; 32])),
            incr: (300_000_100, Hash32([2u8; 32])),
        },
        latency_microseconds: 1_234,
    }
}

#[test]
fn request_from_wire_in_range() {
    let pb = BootstrapInfoRequestPb {
        shred_version: 100,
        version: Some("2.1.0".to_string()),
        hardware_id: Some(42),
    };
    let req = BootstrapInfoRequest::try_from(pb).unwrap();
    assert_eq!(req.shred_version, 100);
    assert_eq!(req.version.as_deref(), Some("2.1.0"));
    assert_eq!(req.hardware_id, Some(42));
    let max = BootstrapInfoRequestPb { shred_version: 65535, ..Default::default() };
    assert_eq!(BootstrapInfoRequest::try_from(max).unwrap().shred_version, 65535);
}

#[test]
fn request_from_wire_out_of_range() {
    for v in [65536u32, 70000, u32::MAX] {
        let pb = BootstrapInfoRequestPb { shred_version: v, version: None, hardware_id: None };
        assert!(matches!(BootstrapInfoRequest::try_from(pb), Err(ConversionError::TryFromInt(_))));
    }
}

#[test]
fn request_to_wire() {
    let req = BootstrapInfoRequest { shred_version: 50093, version: None, hardware_id: Some(9) };
    let pb = BootstrapInfoRequestPb::from(&req);
    assert_eq!(
        pb,
        BootstrapInfoRequestPb { shred_version: 50093, version: None, hardware_id: Some(9) }
    );
    assert_eq!(BootstrapInfoRequest::try_from(pb).unwrap(), req);
}

#[test]
fn node_round_trips() {
    let n = node();
    let pb = SnapshotNodePb::try_from(n).unwrap();
    assert_eq!(pb.rpc, encode_socket_addr(&n.rpc));
    assert_eq!(pb.pubkey, n.pubkey.0.to_vec());
    assert_eq!(pb.snapshot_hash, encode_snapshot_hash(&n.snapshot_hash));
    assert_eq!(pb.latency, 1_234);
    assert_eq!(BootstrapSnapshotNode::try_from(pb).unwrap(), n);
}

#[test]
fn short_or_long_key_is_key_error() {
    for len in [0usize, 31, 33] {
        let mut pb = SnapshotNodePb::try_from(node()).unwrap();
        let bytes: Vec<u8> = (0..len as u8).collect();
        pb.pubkey = bytes.clone();
        assert_eq!(
            BootstrapSnapshotNode::try_from(pb),
            Err(ConversionError::PubkeyDeserialization(bytes))
        );
    }
}

#[test]
fn bad_nested_fields_are_format_errors() {
    let mut pb = SnapshotNodePb::try_from(node()).unwrap();
    pb.rpc = vec![7, 1, 2];
    assert_eq!(
        BootstrapSnapshotNode::try_from(pb),
        Err(ConversionError::Format(DecodeError::InvalidTag(7)))
    );
    let mut pb = SnapshotNodePb::try_from(node()).unwrap();
    pb.snapshot_hash.truncate(40);
    assert_eq!(
        BootstrapSnapshotNode::try_from(pb),
        Err(ConversionError::Format(DecodeError::UnexpectedEnd))
    );
}

#[test]
fn response_round_trips() {
    let resp = BootstrapInfoResponse {
        node: Some(node()),
        flags: Flags::from(0b10011u64),
        contact_info: vec![1, 2, 3],
        constants: vec![("a".to_string(), "1".to_string()), ("b".to_string(), "two".to_string())],
    };
    let pb = BootstrapInfoResponsePb::try_from(resp.clone()).unwrap();
    assert_eq!(pb.flags, 0b10011);
    assert_eq!(pb.contact_info, vec![1, 2, 3]);
    assert_eq!(
        pb.constants,
        vec![
            ConstantPb { name: "a".to_string(), value: "1".to_string() },
            ConstantPb { name: "b".to_string(), value: "two".to_string() },
        ]
    );
    assert_eq!(BootstrapInfoResponse::try_from(pb).unwrap(), resp);
}

#[test]
fn response_without_node() {
    let pb = BootstrapInfoResponsePb { node: None, flags: 5, contact_info: vec![], constants: vec![] };
    let resp = BootstrapInfoResponse::try_from(pb).unwrap();
    assert_eq!(resp.node, None);
    assert_eq!(u64::from(resp.flags), 5);
    assert!(resp.constants.is_empty());
}

#[test]
fn response_with_bad_node_fails_whole() {
    let mut node_pb = SnapshotNodePb::try_from(node()).unwrap();
    node_pb.pubkey = vec![1, 2, 3];
    let pb = BootstrapInfoResponsePb {
        node: Some(node_pb),
        flags: 1,
        contact_info: vec![9],
        constants: vec![ConstantPb { name: "x".to_string(), value: "y".to_string() }],
    };
    assert_eq!(
        BootstrapInfoResponse::try_from(pb),
        Err(ConversionError::PubkeyDeserialization(vec![1, 2, 3]))
    );
}

#[test]
fn error_wraps_conversion_error() {
    let e = Error::from(ConversionError::PubkeyDeserialization(vec![4]));
    assert_eq!(e, Error::ConversionError(ConversionError::PubkeyDeserialization(vec![4])));
}

#[test]
fn key_from_vec() {
    assert_eq!(Pubkey::try_from_vec(vec![3u8; 32]), Ok(Pubkey([3u8; 32])));
    assert_eq!(Pubkey::try_from_vec(vec![3u8; 5]), Err(vec![3u8; 5]));
}
