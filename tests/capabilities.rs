use allnodes_service_protos::{
    ServiceCapabilities, CAP_GET_BOOTSTRAP_INFO, CAP_HEARTBEAT, CAP_MAINNET,
    CAP_PROCESS_POH_CORE_CONFIG, CAP_RESOLVE_POH_CPU_CORE,
};

const CAPS: [usize; 5] = [
    CAP_MAINNET,
    CAP_GET_BOOTSTRAP_INFO,
    CAP_PROCESS_POH_CORE_CONFIG,
    CAP_RESOLVE_POH_CPU_CORE,
    CAP_HEARTBEAT,
];

#[test]
fn capability_indices_are_stable() {
    assert_eq!(CAPS, [0, 1, 2, 3, 4]);
}

#[test]
fn is_supported_reads_the_bit() {
    for word in [0u64, 1, 0b10110, 0b11111, u64::MAX, 0x8000_0000_0000_0010] {
        let caps = ServiceCapabilities::from(word);
        for i in CAPS {
            assert_eq!(caps.is_supported(i), (word >> i) & 1 != 0);
        }
    }
    let caps = ServiceCapabilities::from(0b10010u64);
    assert!(caps.is_supported(CAP_GET_BOOTSTRAP_INFO));
    assert!(caps.is_supported(CAP_HEARTBEAT));
    assert!(!caps.is_supported(CAP_MAINNET));
    assert!(!caps.is_supported(CAP_PROCESS_POH_CORE_CONFIG));
}

#[test]
fn capability_word_round_trips() {
    for w in [0u64, 1, 31, 0x0123_4567_89ab_cdef, u64::MAX] {
        assert_eq!(u64::from(ServiceCapabilities::from(w)), w);
    }
}

#[test]
fn renders_sixteen_hex_digits() {
    assert_eq!(ServiceCapabilities::from(1u64).to_string(), "0000000000000001");
    assert_eq!(ServiceCapabilities::from(u64::MAX).to_string(), "ffffffffffffffff");
    assert_eq!(ServiceCapabilities::from(0u64).to_string(), "0000000000000000");
    assert_eq!(
        ServiceCapabilities::from(0x0123_4567_89ab_cdefu64).to_string(),
        "0123456789abcdef"
    );
    let s = ServiceCapabilities::from(0xa0u64).to_string();
    assert_eq!(s.len(), 16);
    assert_eq!(u64::from_str_radix(&s, 16).unwrap(), 0xa0);
}

#[test]
fn rendering_parses_back() {
    for w in [0u64, 1, 0xa0, 0x0123_4567_89ab_cdef, u64::MAX, 1 << 63] {
        let caps = ServiceCapabilities::from(w);
        assert_eq!(ServiceCapabilities::from_hex(&caps.to_string()), Some(caps));
    }
    assert_eq!(
        ServiceCapabilities::from_hex("00000000000000ff").map(u64::from),
        Some(0xff)
    );
}

#[test]
fn malformed_capability_strings_are_rejected() {
    assert_eq!(ServiceCapabilities::from_hex(""), None);
    assert_eq!(ServiceCapabilities::from_hex("000000000000001"), None);
    assert_eq!(ServiceCapabilities::from_hex("00000000000000001"), None);
    assert_eq!(ServiceCapabilities::from_hex("FFFFFFFFFFFFFFFF"), None);
    assert_eq!(ServiceCapabilities::from_hex("000000000000000g"), None);
    assert_eq!(ServiceCapabilities::from_hex("0x00000000000001"), None);
}
