use teth::error::Error;
use teth::hash::{keccak256, H256};
use teth::header::{BlockHeader, HeaderChecks, MINIMUM_DIFFICULTY};
use teth::uint::U256;

fn n(v: u64) -> U256 {
    U256::from_u64(v)
}

fn parent() -> BlockHeader {
    BlockHeader {
        difficulty: n(1_000_000),
        number: 10,
        gas_limit: n(1_024_000),
        gas_used: n(0),
        timestamp: 1_000,
        ..BlockHeader::default()
    }
}

fn child() -> BlockHeader {
    BlockHeader { number: 11, gas_used: n(21_000), timestamp: 1_001, ..parent() }
}

const ALL_GOOD: HeaderChecks =
    HeaderChecks { proof_of_work: true, gas_used: true, gas_limit: true, timestamp: true, number: true };

#[test]
fn the_child_of_block_zero_has_the_minimum_difficulty() {
    assert_eq!(MINIMUM_DIFFICULTY, 131_072);
    assert_eq!(BlockHeader::difficulty(0, n(0), 0, 0, 0, 0), n(131_072));
    assert_eq!(BlockHeader::difficulty(0, U256::max_value(), 7, 100, 5, 30_000_000), n(131_072));
    assert_eq!(BlockHeader::checked_difficulty(0, n(5), 1, u64::MAX, 0, u64::MAX), Some(n(131_072)));
}

#[test]
fn a_quick_block_raises_the_difficulty_by_a_2048th() {
    assert_eq!(BlockHeader::difficulty(1, n(1_000_000), 0, 100, 105, 2), n(1_000_488));
    assert_eq!(BlockHeader::difficulty(1, n(1_000_000), 0, 100, 108, 2), n(1_000_488));
}

#[test]
fn ommers_of_the_parent_raise_it_twice() {
    assert_eq!(BlockHeader::difficulty(1, n(1_000_000), 1, 100, 105, 2), n(1_000_976));
    assert_eq!(BlockHeader::difficulty(1, n(1_000_000), 5, 100, 109, 2), n(1_000_488));
}

#[test]
fn nine_seconds_leave_the_difficulty_as_it_is() {
    assert_eq!(BlockHeader::difficulty(1, n(1_000_000), 0, 100, 109, 2), n(1_000_000));
    assert_eq!(BlockHeader::difficulty(1, n(1_000_000), 0, 100, 117, 2), n(1_000_000));
    assert_eq!(BlockHeader::difficulty(1, n(1_000_000), 0, 100, 118, 2), n(999_512));
}

#[test]
fn a_slow_block_lowers_the_difficulty_by_at_most_99_parts() {
    assert_eq!(BlockHeader::difficulty(1, n(1_000_000), 0, 100, 991, 2), n(952_176));
    assert_eq!(BlockHeader::difficulty(1, n(1_000_000), 0, 100, 1_000, 2), n(951_688));
    assert_eq!(BlockHeader::difficulty(1, n(1_000_000), 0, 100, 1_900, 2), n(951_688));
    assert_eq!(BlockHeader::difficulty(1, n(1_000_000), 0, 0, u64::MAX, 2), n(951_688));
}

#[test]
fn the_difficulty_never_falls_below_the_minimum() {
    assert_eq!(BlockHeader::difficulty(1, n(131_072), 0, 100, 1_900, 2), n(131_072));
    assert_eq!(BlockHeader::difficulty(1, n(0), 0, 100, 101, 2), n(131_072));
    assert_eq!(BlockHeader::difficulty(5, n(140_000), 0, 100, 1_000, 6), n(140_000 - 68 * 99));
    assert_eq!(BlockHeader::difficulty(5, n(137_000), 0, 100, 1_000, 6), n(131_072));
}

#[test]
fn a_timestamp_before_the_parent_counts_as_negative_time() {
    assert_eq!(BlockHeader::difficulty(1, n(1_000_000), 0, 100, 99, 2), n(1_000_976));
    assert_eq!(BlockHeader::difficulty(1, n(1_000_000), 0, 100, 91, 2), n(1_000_976));
    assert_eq!(BlockHeader::difficulty(1, n(1_000_000), 0, 100, 90, 2), n(1_001_464));
    assert_eq!(BlockHeader::difficulty(1, n(1_000_000), 1, 100, 90, 2), n(1_001_952));
}

#[test]
fn the_bomb_doubles_every_100000_blocks() {
    assert_eq!(BlockHeader::difficulty(1, n(1_000_000), 0, 100, 109, 3_199_999), n(1_000_000));
    assert_eq!(BlockHeader::difficulty(1, n(1_000_000), 0, 100, 109, 3_200_000), n(1_000_001));
    assert_eq!(BlockHeader::difficulty(1, n(1_000_000), 0, 100, 109, 3_299_999), n(1_000_001));
    assert_eq!(BlockHeader::difficulty(1, n(1_000_000), 0, 100, 109, 3_300_000), n(1_000_002));
    assert_eq!(BlockHeader::difficulty(1, n(1_000_000), 0, 100, 109, 3_400_000), n(1_000_004));
    assert_eq!(BlockHeader::difficulty(1, n(1_000_000), 0, 100, 109, 2_999_999), n(1_000_000));
    assert_eq!(
        BlockHeader::difficulty(1, n(0), 0, 100, 109, 28_700_000),
        U256::from_limbs(0, 0, 0, 1 << 63)
    );
}

#[test]
fn a_difficulty_beyond_256_bits_is_none() {
    assert_eq!(BlockHeader::checked_difficulty(1, n(0), 0, 100, 109, 28_800_000), None);
    assert_eq!(BlockHeader::checked_difficulty(1, n(0), 0, 100, 109, u64::MAX), None);
    assert_eq!(BlockHeader::checked_difficulty(1, U256::max_value(), 0, 100, 101, 2), None);
    assert_eq!(BlockHeader::checked_difficulty(1, U256::max_value(), 0, u64::MAX, 0, 2), None);
    assert_eq!(
        BlockHeader::checked_difficulty(1, U256::max_value(), 0, 100, 109, 2),
        Some(U256::max_value())
    );
    assert_eq!(BlockHeader::checked_difficulty(1, U256::max_value(), 0, 100, 109, 3_200_000), None);
    assert_eq!(
        BlockHeader::checked_difficulty(1, n(1_000_000), 0, 100, 105, 2),
        Some(n(1_000_488))
    );
}

#[test]
fn the_gas_limit_must_stay_within_a_1024th_of_the_parent() {
    let parent = n(1_024_000);
    assert!(!BlockHeader::validate_gas_limit(n(1_025_000), parent));
    assert!(BlockHeader::validate_gas_limit(n(1_024_999), parent));
    assert!(BlockHeader::validate_gas_limit(n(1_024_000), parent));
    assert!(BlockHeader::validate_gas_limit(n(1_023_001), parent));
    assert!(!BlockHeader::validate_gas_limit(n(1_023_000), parent));
    assert!(!BlockHeader::validate_gas_limit(n(2_000_000), parent));
    assert!(!BlockHeader::validate_gas_limit(n(0), parent));
}

#[test]
fn the_gas_limit_must_be_at_least_5000() {
    assert!(!BlockHeader::validate_gas_limit(n(4_999), n(5_000)));
    assert!(BlockHeader::validate_gas_limit(n(5_000), n(5_000)));
    assert!(BlockHeader::validate_gas_limit(n(5_000), n(5_003)));
    assert!(!BlockHeader::validate_gas_limit(n(4_999), n(4_999)));
    assert!(!BlockHeader::validate_gas_limit(n(5_000), n(1_000)));
}

#[test]
fn the_gas_limit_bounds_hold_next_to_the_largest_number() {
    let max = U256::max_value();
    assert!(BlockHeader::validate_gas_limit(max, max));
    assert!(!BlockHeader::validate_gas_limit(n(5_000), max));
}

#[test]
fn a_timestamp_must_be_later_than_the_parents() {
    assert!(BlockHeader::validate_timestamp(2, 1));
    assert!(!BlockHeader::validate_timestamp(1, 1));
    assert!(!BlockHeader::validate_timestamp(0, 1));
}

#[test]
fn the_gas_used_must_not_exceed_the_gas_limit() {
    assert!(child().validate_gas_used());
    assert!(BlockHeader { gas_used: n(1_024_000), ..child() }.validate_gas_used());
    assert!(!BlockHeader { gas_used: n(1_024_001), ..child() }.validate_gas_used());
}

#[test]
fn a_good_child_is_valid() {
    assert!(child().validate(&parent(), true));
    assert_eq!(child().checks(&parent(), true), ALL_GOOD);
    assert_eq!(ALL_GOOD.verdict(), Ok(()));
    assert!(ALL_GOOD.all());
}

#[test]
fn every_check_is_made_and_reported() {
    let bad = BlockHeader {
        gas_used: n(2_000_000),
        gas_limit: n(1_025_000),
        timestamp: 1_000,
        number: 12,
        ..child()
    };
    let checks = bad.checks(&parent(), false);
    assert_eq!(
        checks,
        HeaderChecks { proof_of_work: false, gas_used: false, gas_limit: false, timestamp: false, number: false }
    );
    assert!(!checks.all());
    assert!(!bad.validate(&parent(), false));
}

#[test]
fn each_failed_check_has_its_error() {
    assert!(!child().validate(&parent(), false));
    assert_eq!(child().checks(&parent(), false).verdict(), Err(Error::ProofOfWorkInvalid));
    let h = BlockHeader { gas_used: n(1_024_001), ..child() };
    assert!(!h.validate(&parent(), true));
    assert_eq!(h.checks(&parent(), true).verdict(), Err(Error::BlockGasExceeded));
    let h = BlockHeader { gas_limit: n(1_025_000), ..child() };
    assert!(!h.validate(&parent(), true));
    assert_eq!(h.checks(&parent(), true).verdict(), Err(Error::InvalidGasLimit));
    let h = BlockHeader { timestamp: 1_000, ..child() };
    assert!(!h.validate(&parent(), true));
    assert_eq!(h.checks(&parent(), true).verdict(), Err(Error::InvalidTimestamp));
    let h = BlockHeader { number: 10, ..child() };
    assert!(!h.validate(&parent(), true));
    assert_eq!(h.checks(&parent(), true).verdict(), Err(Error::InvalidBlockNumber));
    let h = BlockHeader { number: 0, ..child() };
    let p = BlockHeader { number: u64::MAX, ..parent() };
    assert_eq!(h.checks(&p, true).verdict(), Err(Error::InvalidBlockNumber));
}

#[test]
fn the_default_header_encodes_as_fifteen_items() {
    let bytes = BlockHeader::default().to_rlp();
    assert_eq!(bytes.len(), 520);
    assert_eq!(&bytes[..4], &[0xf9, 0x02, 0x05, 0xa0]);
    let view = rlp::Rlp::new(&bytes);
    assert_eq!(view.item_count(), Ok(15));
    assert_eq!(view.val_at::<Vec<u8>>(0), Ok(vec![0; 32]));
    assert_eq!(view.val_at::<Vec<u8>>(2), Ok(vec![0; 20]));
    assert_eq!(view.val_at::<Vec<u8>>(6), Ok(vec![0; 256]));
    assert_eq!(view.val_at::<Vec<u8>>(12), Ok(vec![0; 32]));
    assert_eq!(view.val_at::<u64>(14), Ok(0));
}

#[test]
fn a_header_encodes_its_fields_in_order() {
    let mut extra = [0u8; 32];
    extra[0] = 0xee;
    let header = BlockHeader {
        parent_hash: keccak256(&[1]),
        ommers_hash: keccak256(&[2]),
        state_root: keccak256(&[3]),
        transactions_root: keccak256(&[4]),
        receipts_root: keccak256(&[5]),
        difficulty: n(131_072),
        number: 7,
        gas_limit: n(3_141_592),
        gas_used: n(21_000),
        timestamp: 1_234_567,
        extra_data: extra,
        mix_hash: keccak256(&[6]),
        nonce: 42,
        ..BlockHeader::default()
    };
    let bytes = header.to_rlp();
    let view = rlp::Rlp::new(&bytes);
    assert_eq!(view.item_count(), Ok(15));
    assert_eq!(view.val_at::<Vec<u8>>(0), Ok(keccak256(&[1]).bytes.to_vec()));
    assert_eq!(view.val_at::<Vec<u8>>(1), Ok(keccak256(&[2]).bytes.to_vec()));
    assert_eq!(view.val_at::<Vec<u8>>(3), Ok(keccak256(&[3]).bytes.to_vec()));
    assert_eq!(view.val_at::<Vec<u8>>(4), Ok(keccak256(&[4]).bytes.to_vec()));
    assert_eq!(view.val_at::<Vec<u8>>(5), Ok(keccak256(&[5]).bytes.to_vec()));
    assert_eq!(view.val_at::<u64>(7), Ok(131_072));
    assert_eq!(view.val_at::<u64>(8), Ok(7));
    assert_eq!(view.val_at::<u64>(9), Ok(3_141_592));
    assert_eq!(view.val_at::<u64>(10), Ok(21_000));
    assert_eq!(view.val_at::<u64>(11), Ok(1_234_567));
    assert_eq!(view.val_at::<Vec<u8>>(12), Ok(extra.to_vec()));
    assert_eq!(view.val_at::<Vec<u8>>(13), Ok(keccak256(&[6]).bytes.to_vec()));
    assert_eq!(view.val_at::<u64>(14), Ok(42));
}

#[test]
fn the_hash_of_a_header_is_the_digest_of_its_encoding() {
    let header = child();
    assert_eq!(header.hash(), keccak256(&header.to_rlp()));
    assert_eq!(header.hash().bytes, tiny_keccak::keccak256(&header.to_rlp()));
}

#[test]
fn every_field_of_a_header_changes_its_hash() {
    let base = child();
    let mut extra = [0u8; 32];
    extra[31] = 1;
    let mut bloom = base.logs_bloom;
    bloom.bytes[255] = 1;
    let mut beneficiary = base.beneficiary;
    beneficiary.bytes[0] = 1;
    let one = H256::from_bytes([1; 32]);
    let variants = vec![
        BlockHeader { parent_hash: one, ..base },
        BlockHeader { ommers_hash: one, ..base },
        BlockHeader { beneficiary, ..base },
        BlockHeader { state_root: one, ..base },
        BlockHeader { transactions_root: one, ..base },
        BlockHeader { receipts_root: one, ..base },
        BlockHeader { logs_bloom: bloom, ..base },
        BlockHeader { difficulty: n(1), ..base },
        BlockHeader { number: 12, ..base },
        BlockHeader { gas_limit: n(1), ..base },
        BlockHeader { gas_used: n(1), ..base },
        BlockHeader { timestamp: 1, ..base },
        BlockHeader { extra_data: extra, ..base },
        BlockHeader { mix_hash: one, ..base },
        BlockHeader { nonce: 1, ..base },
    ];
    for (i, h) in variants.iter().enumerate() {
        assert_ne!(h.hash(), base.hash(), "variant {}", i);
        for other in variants.iter().skip(i + 1) {
            assert_ne!(h.hash(), other.hash());
        }
    }
    assert_eq!(child().hash(), base.hash());
}

#[test]
fn headers_are_the_same_when_every_field_is() {
    assert!(child().same_as(&child()));
    assert!(!child().same_as(&parent()));
    assert!(!child().same_as(&BlockHeader { nonce: 1, ..child() }));
    assert!(!child().same_as(&BlockHeader { gas_used: n(1), ..child() }));
    let mut extra = [0u8; 32];
    extra[7] = 1;
    assert!(!child().same_as(&BlockHeader { extra_data: extra, ..child() }));
    assert!(BlockHeader::default().same_as(&BlockHeader::default()));
}
