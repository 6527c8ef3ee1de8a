use teth::accountstate::AccountState;
use teth::chain::BlockChain;
use teth::error::Error;
use teth::hash::{keccak256, Address};
use teth::ledger::Ledger;
use teth::transaction::{secp256k1n_half_plus_one, secp256k1n_value, Signature, Transaction};
use teth::uint::U256;
use teth::worldstate::WorldState;

fn addr(last: u8) -> Address {
    let mut bytes = [0u8; 20];
    bytes[19] = last;
    Address::from_bytes(bytes)
}

fn n(v: u64) -> U256 {
    U256::from_u64(v)
}

fn transfer() -> Transaction {
    Transaction {
        nonce: n(1),
        gas_price: n(2),
        gas_limit: n(84_000),
        to: Some(addr(7)),
        value: n(42_000),
        data: Some(vec![]),
        ..Transaction::default()
    }
}

fn sender_account() -> AccountState {
    AccountState { nonce: n(1), balance: n(1_000_000), ..AccountState::default() }
}

#[test]
fn the_group_order_is_the_known_number() {
    let order = ethereum_types::U256::from_dec_str(
        "115792089237316195423570985008687907852837564279074904382605163141518161494337",
    )
    .unwrap();
    let ours = secp256k1n_value();
    assert_eq!([ours.w0, ours.w1, ours.w2, ours.w3], order.0);
    let half = secp256k1n_half_plus_one();
    assert_eq!([half.w0, half.w1, half.w2, half.w3], (order / 2 + 1).0);
}

#[test]
fn a_signature_needs_r_and_s_in_range() {
    let order = secp256k1n_value();
    let half = secp256k1n_half_plus_one();
    let below_order = order.checked_sub(&U256::one()).unwrap();
    let below_half = half.checked_sub(&U256::one()).unwrap();
    assert!(Signature::new(27, below_order, below_half).is_valid());
    assert!(Signature::new(28, U256::one(), U256::one()).is_valid());
    assert!(!Signature::new(27, order, U256::one()).is_valid());
    assert!(!Signature::new(27, U256::one(), half).is_valid());
    assert!(!Signature::new(27, U256::zero(), U256::one()).is_valid());
    assert!(!Signature::new(27, U256::one(), U256::zero()).is_valid());
}

#[test]
fn a_transaction_answers_for_its_signature() {
    assert!(!transfer().is_signature_valid());
    let signed = Transaction { signature: Signature::new(28, n(1), n(1)), ..transfer() };
    assert!(signed.is_signature_valid());
}

#[test]
fn a_signature_needs_v_of_27_or_28() {
    assert!(!Signature::new(26, U256::one(), U256::one()).is_valid());
    assert!(!Signature::new(29, U256::one(), U256::one()).is_valid());
    assert!(!Signature::new(0, U256::one(), U256::one()).is_valid());
    assert!(!Signature::new(28, U256::zero(), U256::zero()).is_valid());
    assert!(!Signature::default().is_valid());
}

#[test]
fn a_value_transfer_costs_the_flat_fee() {
    assert_eq!(transfer().intrinsic_gas(), Ok(21_000));
}

#[test]
fn a_creation_with_ten_zero_bytes_costs_53040() {
    let tx = Transaction { to: None, init: Some(vec![0; 10]), data: None, ..transfer() };
    assert_eq!(tx.intrinsic_gas(), Ok(53_040));
}

#[test]
fn each_byte_is_paid_at_its_own_price() {
    let tx = Transaction { data: Some(vec![0, 1, 2, 0]), ..transfer() };
    assert_eq!(tx.intrinsic_gas(), Ok(21_000 + 2 * 4 + 2 * 68));
    let tx = Transaction { to: None, init: Some(vec![0xff]), data: None, ..transfer() };
    assert_eq!(tx.intrinsic_gas(), Ok(21_000 + 32_000 + 68));
}

#[test]
fn the_recipient_decides_whether_code_or_data_is_paid_for() {
    let call = Transaction { init: Some(vec![1, 1]), data: Some(vec![0]), ..transfer() };
    assert_eq!(call.intrinsic_gas(), Ok(21_000 + 4));
    let creation = Transaction { to: None, ..call.clone() };
    assert_eq!(creation.intrinsic_gas(), Ok(21_000 + 32_000 + 2 * 68));
}

#[test]
fn an_absent_payload_counts_as_empty_beside_a_present_one() {
    let call = Transaction { init: Some(vec![1, 1]), data: None, ..transfer() };
    assert_eq!(call.intrinsic_gas(), Ok(21_000));
    let creation = Transaction { to: None, init: None, data: Some(vec![1]), ..transfer() };
    assert_eq!(creation.intrinsic_gas(), Ok(21_000 + 32_000));
}

#[test]
fn a_transaction_without_code_and_data_is_malformed() {
    let tx = Transaction { init: None, data: None, ..transfer() };
    assert_eq!(tx.intrinsic_gas(), Err(Error::MalformedTransaction));
    assert_eq!(Transaction::default().intrinsic_gas(), Err(Error::MalformedTransaction));
}

#[test]
fn the_up_front_cost_is_gas_at_its_price_plus_the_value() {
    assert_eq!(transfer().up_front_cost(), n(210_000));
    assert_eq!(transfer().checked_up_front_cost(), Some(n(210_000)));
}

#[test]
fn an_up_front_cost_beyond_256_bits_is_none() {
    let tx = Transaction { gas_limit: U256::max_value(), ..transfer() };
    assert_eq!(tx.checked_up_front_cost(), None);
    let tx = Transaction { gas_price: U256::one(), gas_limit: U256::max_value(), value: n(1), ..transfer() };
    assert_eq!(tx.checked_up_front_cost(), None);
    let tx = Transaction { gas_price: U256::one(), gas_limit: U256::max_value(), value: n(0), ..transfer() };
    assert_eq!(tx.checked_up_front_cost(), Some(U256::max_value()));
}

#[test]
fn a_good_transaction_is_valid() {
    assert_eq!(transfer().validate(&sender_account(), &n(0), &n(3_141_592)), Ok(()));
    assert_eq!(transfer().validate(&sender_account(), &n(16_000), &n(100_000)), Ok(()));
}

#[test]
fn a_wrong_nonce_is_refused() {
    let account = AccountState { nonce: n(2), ..sender_account() };
    assert_eq!(transfer().validate(&account, &n(0), &n(3_141_592)), Err(Error::InvalidNonce));
}

#[test]
fn a_gas_limit_below_the_intrinsic_gas_is_refused() {
    let tx = Transaction { gas_limit: n(20_999), ..transfer() };
    assert_eq!(tx.validate(&sender_account(), &n(0), &n(3_141_592)), Err(Error::GasLimitTooLow));
    let tx = Transaction { gas_limit: n(21_000), ..transfer() };
    assert_eq!(tx.validate(&sender_account(), &n(0), &n(3_141_592)), Ok(()));
}

#[test]
fn a_balance_below_the_up_front_cost_is_refused() {
    let account = AccountState { balance: n(209_999), ..sender_account() };
    assert_eq!(transfer().validate(&account, &n(0), &n(3_141_592)), Err(Error::InsufficientBalance));
    let account = AccountState { balance: n(210_000), ..sender_account() };
    assert_eq!(transfer().validate(&account, &n(0), &n(3_141_592)), Ok(()));
    let tx = Transaction { gas_price: U256::max_value(), ..transfer() };
    assert_eq!(tx.validate(&sender_account(), &n(0), &n(3_141_592)), Err(Error::InsufficientBalance));
}

#[test]
fn more_gas_than_the_block_allows_is_refused() {
    assert_eq!(transfer().validate(&sender_account(), &n(16_001), &n(100_000)), Err(Error::BlockGasExceeded));
    assert_eq!(
        transfer().validate(&sender_account(), &U256::max_value(), &U256::max_value()),
        Err(Error::BlockGasExceeded)
    );
}

#[test]
fn the_first_broken_rule_decides() {
    let account = AccountState { nonce: n(9), balance: n(0), ..AccountState::default() };
    let malformed = Transaction { init: None, data: None, gas_limit: n(0), ..transfer() };
    assert_eq!(malformed.validate(&account, &n(9), &n(1)), Err(Error::InvalidNonce));
    let tx = Transaction { gas_limit: n(1), ..transfer() };
    assert_eq!(tx.validate(&account, &n(9), &n(1)), Err(Error::InvalidNonce));
    let account = AccountState { nonce: n(1), balance: n(0), ..AccountState::default() };
    assert_eq!(malformed.validate(&account, &n(9), &n(1)), Err(Error::MalformedTransaction));
    assert_eq!(tx.validate(&account, &n(9), &n(1)), Err(Error::GasLimitTooLow));
    assert_eq!(transfer().validate(&account, &n(9), &n(1)), Err(Error::InsufficientBalance));
}

#[test]
fn executing_debits_the_gas_and_counts_the_nonce() {
    let mut world = WorldState::new();
    world.insert(addr(1), sender_account());
    world.insert(addr(7), AccountState::new(n(5)));
    let left = transfer().execute(&mut world, &addr(1), &n(0), &n(3_141_592));
    assert_eq!(left, Ok(n(63_000)));
    assert_eq!(
        world.lookup(&addr(1)),
        Some(AccountState { nonce: n(2), balance: n(1_000_000 - 168_000), ..AccountState::default() })
    );
    assert_eq!(world.lookup(&addr(7)), Some(AccountState::new(n(5))));
    assert_eq!(world.len(), 2);
}

#[test]
fn a_refused_transaction_leaves_the_state_as_it_was() {
    let mut world = WorldState::new();
    world.insert(addr(1), AccountState { balance: n(209_999), ..sender_account() });
    let before = world.lookup(&addr(1));
    assert_eq!(
        transfer().execute(&mut world, &addr(1), &n(0), &n(3_141_592)),
        Err(Error::InsufficientBalance)
    );
    assert_eq!(world.lookup(&addr(1)), before);
    assert_eq!(
        transfer().execute(&mut world, &addr(1), &n(0), &n(100)),
        Err(Error::InsufficientBalance)
    );
    let tx = Transaction { nonce: n(5), ..transfer() };
    assert_eq!(tx.execute(&mut world, &addr(1), &n(0), &n(3_141_592)), Err(Error::InvalidNonce));
    assert_eq!(world.lookup(&addr(1)), before);
    assert_eq!(world.len(), 1);
}

#[test]
fn a_missing_sender_counts_as_a_fresh_account() {
    let mut world = WorldState::new();
    assert_eq!(
        transfer().execute(&mut world, &addr(1), &n(0), &n(3_141_592)),
        Err(Error::InvalidNonce)
    );
    assert_eq!(world.len(), 0);
    let free = Transaction { nonce: n(0), gas_price: n(0), value: n(0), ..transfer() };
    assert_eq!(free.execute(&mut world, &addr(1), &n(0), &n(3_141_592)), Ok(n(63_000)));
    assert_eq!(
        world.lookup(&addr(1)),
        Some(AccountState { nonce: n(1), ..AccountState::default() })
    );
}

#[test]
fn a_nonce_that_cannot_grow_is_an_overflow() {
    let mut world = WorldState::new();
    let account = AccountState { nonce: U256::max_value(), balance: n(1_000_000), ..AccountState::default() };
    world.insert(addr(1), account);
    let tx = Transaction { nonce: U256::max_value(), ..transfer() };
    assert_eq!(tx.validate(&account, &n(0), &n(3_141_592)), Ok(()));
    assert_eq!(tx.execute(&mut world, &addr(1), &n(0), &n(3_141_592)), Err(Error::Overflow));
    assert_eq!(world.lookup(&addr(1)), Some(account));
}

#[test]
fn the_ledger_refuses_a_bad_signature_first() {
    let mut world = WorldState::new();
    world.insert(addr(1), sender_account());
    let mut ledger = Ledger::new(world, BlockChain::new_at(1));
    assert_eq!(
        ledger.validate_and_apply_transaction(&transfer(), &addr(1), &n(0), &n(3_141_592)),
        Err(Error::InvalidSignature)
    );
    assert_eq!(ledger.get_account(&addr(1)), Some(sender_account()));
    let signed = Transaction { signature: Signature::new(27, n(1), n(1)), ..transfer() };
    assert_eq!(
        ledger.validate_and_apply_transaction(&signed, &addr(1), &n(0), &n(3_141_592)),
        Ok(n(63_000))
    );
    assert_eq!(ledger.get_balance(&addr(1)), n(832_000));
    assert_eq!(
        ledger.validate_and_apply_transaction(&signed, &addr(1), &n(0), &n(3_141_592)),
        Err(Error::InvalidNonce)
    );
    assert_eq!(ledger.get_balance(&addr(1)), n(832_000));
}

#[test]
fn the_default_transaction_encodes_as_ten_empty_items() {
    let bytes = Transaction::default().to_rlp();
    assert_eq!(bytes, vec![0xca, 0x80, 0x80, 0x80, 0xc0, 0x80, 0x80, 0x80, 0x80, 0xc0, 0xc0]);
    assert_eq!(Transaction::default().try_to_rlp(), Some(bytes));
}

#[test]
fn a_transaction_encodes_its_fields_in_order() {
    let tx = Transaction {
        signature: Signature::new(27, n(5), n(6)),
        init: Some(vec![9, 9]),
        data: Some(vec![1, 2, 3]),
        ..transfer()
    };
    let bytes = tx.to_rlp();
    let view = rlp::Rlp::new(&bytes);
    assert_eq!(view.item_count(), Ok(10));
    assert_eq!(view.val_at::<u64>(0), Ok(1));
    assert_eq!(view.val_at::<u64>(1), Ok(2));
    assert_eq!(view.val_at::<u64>(2), Ok(84_000));
    assert_eq!(
        view.val_at::<Option<ethereum_types::Address>>(3),
        Ok(Some(ethereum_types::Address::from(addr(7).bytes)))
    );
    assert_eq!(view.val_at::<u64>(4), Ok(42_000));
    assert_eq!(view.val_at::<u8>(5), Ok(27));
    assert_eq!(view.val_at::<u64>(6), Ok(5));
    assert_eq!(view.val_at::<u64>(7), Ok(6));
    assert_eq!(view.val_at::<Option<Vec<u8>>>(8), Ok(Some(vec![9, 9])));
    assert_eq!(view.val_at::<Option<Vec<u8>>>(9), Ok(Some(vec![1, 2, 3])));
}

#[test]
fn the_hash_of_a_transaction_is_the_digest_of_its_encoding() {
    let tx = transfer();
    assert_eq!(tx.hash(), keccak256(&tx.to_rlp()));
    assert_eq!(tx.try_hash(), Some(tx.hash()));
    assert_eq!(tx.hash().bytes, tiny_keccak::keccak256(&tx.to_rlp()));
}

#[test]
fn every_field_of_a_transaction_changes_its_hash() {
    let base = transfer();
    let variants = vec![
        Transaction { nonce: n(2), ..transfer() },
        Transaction { gas_price: n(3), ..transfer() },
        Transaction { gas_limit: n(84_001), ..transfer() },
        Transaction { to: None, ..transfer() },
        Transaction { to: Some(addr(8)), ..transfer() },
        Transaction { value: n(0), ..transfer() },
        Transaction { signature: Signature::new(1, n(0), n(0)), ..transfer() },
        Transaction { signature: Signature::new(0, n(1), n(0)), ..transfer() },
        Transaction { signature: Signature::new(0, n(0), n(1)), ..transfer() },
        Transaction { init: Some(vec![]), ..transfer() },
        Transaction { data: None, ..transfer() },
        Transaction { data: Some(vec![0]), ..transfer() },
    ];
    for (i, tx) in variants.iter().enumerate() {
        assert_ne!(tx.hash(), base.hash(), "variant {}", i);
        for other in variants.iter().skip(i + 1) {
            assert_ne!(tx.hash(), other.hash());
        }
    }
    assert_eq!(transfer().hash(), base.hash());
}
