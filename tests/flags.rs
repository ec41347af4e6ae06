use allnodes_service_protos::Flags;

const WORDS: [u64; 6] = [0, 1, 0x8000_0000_0000_0000, 0xdead_beef_0123_4567, u64::MAX, 0x5555_aaaa_5555_aaaa];

#[test]
fn bit_is_shifted_low_bit() {
    for w in WORDS {
        let f = Flags::from(w);
        for k in 0..64usize {
            assert_eq!(f.bit(k), (w >> k) & 1);
            assert_eq!(f.is_set(k), (w >> k) & 1 != 0);
        }
    }
}

#[test]
fn value_is_bit_range() {
    let f = Flags::from(0xabcdu64);
    assert_eq!(f.value(4, 8), 0xbc);
    assert_eq!(f.value(0, 4), 0xd);
    assert_eq!(f.value(12, 4), 0xa);
    assert_eq!(f.value(0, 64), 0xabcd);
    let all = Flags::from(u64::MAX);
    assert_eq!(all.value(60, 4), 0xf);
    assert_eq!(all.value(63, 1), 1);
    assert_eq!(all.value(0, 64), u64::MAX);
    for w in WORDS {
        let f = Flags::from(w);
        for offset in 0..64usize {
            for width in 1..=(64 - offset as u32) {
                let expected = if width == 64 { w } else { (w >> offset) % (1u64 << width) };
                assert_eq!(f.value(offset, width), expected);
            }
        }
    }
}

#[test]
fn raw_word_round_trips() {
    for w in WORDS {
        assert_eq!(u64::from(Flags::from(w)), w);
    }
}

#[test]
fn clock_flags_truncate_to_64_bits() {
    assert_eq!(u64::from(Flags::from_clock(1_700_000_000_123)), 1_700_000_000_123);
    assert_eq!(u64::from(Flags::from_clock((1u128 << 64) + 5)), 5);
    assert_eq!(u64::from(Flags::from_clock(u128::MAX)), u64::MAX);
    assert_eq!(Flags::from_clock(42), Flags::from_clock(42));
}
