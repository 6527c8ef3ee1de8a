use teth::codec::{
    encode_bytes, encode_list, encode_opt_short, encode_u256, encode_u64, join, try_encode_bytes,
    try_encode_list, try_encode_opt_bytes,
};
use teth::uint::U256;

#[test]
fn a_single_low_byte_is_its_own_encoding() {
    assert_eq!(encode_bytes(&[0x00]), vec![0x00]);
    assert_eq!(encode_bytes(&[0x7f]), vec![0x7f]);
}

#[test]
fn a_single_high_byte_gets_a_prefix() {
    assert_eq!(encode_bytes(&[0x80]), vec![0x81, 0x80]);
    assert_eq!(encode_bytes(&[0xff]), vec![0x81, 0xff]);
}

#[test]
fn the_empty_string_is_one_byte() {
    assert_eq!(encode_bytes(&[]), vec![0x80]);
}

#[test]
fn a_short_string_follows_its_length() {
    assert_eq!(encode_bytes(b"dog"), vec![0x83, b'd', b'o', b'g']);
    let s = [7u8; 55];
    let mut expected = vec![0x80 + 55];
    expected.extend_from_slice(&s);
    assert_eq!(encode_bytes(&s), expected);
}

#[test]
fn a_long_string_follows_the_length_of_its_length() {
    let s = [7u8; 56];
    let mut expected = vec![0xb8, 56];
    expected.extend_from_slice(&s);
    assert_eq!(encode_bytes(&s), expected);

    let s = vec![1u8; 1024];
    let mut expected = vec![0xb9, 0x04, 0x00];
    expected.extend_from_slice(&s);
    assert_eq!(encode_bytes(&s), expected);
}

#[test]
fn scalars_drop_their_leading_zero_bytes() {
    assert_eq!(encode_u64(0), vec![0x80]);
    assert_eq!(encode_u64(15), vec![0x0f]);
    assert_eq!(encode_u64(127), vec![0x7f]);
    assert_eq!(encode_u64(128), vec![0x81, 0x80]);
    assert_eq!(encode_u64(1024), vec![0x82, 0x04, 0x00]);
    assert_eq!(
        encode_u64(u64::MAX),
        vec![0x88, 0xff, 0xff, 0xff, 0xff, 0xff, 0xff, 0xff, 0xff]
    );
}

#[test]
fn wide_scalars_are_encoded_big_endian() {
    assert_eq!(encode_u256(&U256::zero()), vec![0x80]);
    assert_eq!(encode_u256(&U256::from_u64(1024)), vec![0x82, 0x04, 0x00]);
    assert_eq!(
        encode_u256(&U256::from_limbs(2, 1, 0, 0)),
        vec![0x89, 0x01, 0, 0, 0, 0, 0, 0, 0, 0x02]
    );
    let mut expected = vec![0xa0];
    expected.extend_from_slice(&[0xff; 32]);
    assert_eq!(encode_u256(&U256::max_value()), expected);
}

#[test]
fn lists_follow_the_length_of_their_payload() {
    assert_eq!(encode_list(&[]), vec![0xc0]);
    let payload = join(encode_bytes(b"cat"), encode_bytes(b"dog"));
    assert_eq!(
        encode_list(&payload),
        vec![0xc8, 0x83, b'c', b'a', b't', 0x83, b'd', b'o', b'g']
    );
    let payload = vec![0x01u8; 56];
    let mut expected = vec![0xf8, 56];
    expected.extend_from_slice(&payload);
    assert_eq!(encode_list(&payload), expected);
}

#[test]
fn optional_items_are_lists_of_none_or_one() {
    assert_eq!(try_encode_opt_bytes(&None), Some(vec![0xc0]));
    assert_eq!(try_encode_opt_bytes(&Some(vec![])), Some(vec![0xc1, 0x80]));
    assert_eq!(
        try_encode_opt_bytes(&Some(vec![1, 2, 3])),
        Some(vec![0xc4, 0x83, 1, 2, 3])
    );
    assert_eq!(encode_opt_short(None), vec![0xc0]);
    let address = [0xabu8; 20];
    let mut expected = vec![0xd5, 0x94];
    expected.extend_from_slice(&address);
    assert_eq!(encode_opt_short(Some(&address)), expected);
}

#[test]
fn optional_items_agree_with_the_outside_encoder() {
    let none: Option<Vec<u8>> = None;
    assert_eq!(try_encode_opt_bytes(&none), Some(rlp::encode(&none)));
    let some = Some(vec![9u8; 70]);
    assert_eq!(try_encode_opt_bytes(&some), Some(rlp::encode(&some)));
    let address = [0x11u8; 20];
    assert_eq!(
        encode_opt_short(Some(&address)),
        rlp::encode(&Some(ethereum_types::Address::from(address)))
    );
}

#[test]
fn the_checked_encoders_accept_what_fits() {
    assert_eq!(try_encode_bytes(b"dog"), Some(vec![0x83, b'd', b'o', b'g']));
    assert_eq!(try_encode_list(&[0x80]), Some(vec![0xc1, 0x80]));
}

#[test]
fn join_puts_the_tail_after_the_head() {
    assert_eq!(join(vec![1, 2], vec![3]), vec![1, 2, 3]);
    assert_eq!(join(vec![], vec![3]), vec![3]);
    assert_eq!(join(vec![1], vec![]), vec![1]);
}

#[test]
fn decoding_gives_back_a_zero_scalar() {
    assert_eq!(rlp::decode::<u64>(&encode_u64(0)), Ok(0));
    assert_eq!(
        rlp::decode::<ethereum_types::U256>(&encode_u256(&U256::zero())),
        Ok(ethereum_types::U256::zero())
    );
}

#[test]
fn decoding_gives_back_the_largest_scalar() {
    assert_eq!(rlp::decode::<u64>(&encode_u64(u64::MAX)), Ok(u64::MAX));
    assert_eq!(
        rlp::decode::<ethereum_types::U256>(&encode_u256(&U256::max_value())),
        Ok(ethereum_types::U256::max_value())
    );
}

#[test]
fn decoding_gives_back_byte_strings() {
    assert_eq!(rlp::decode::<Vec<u8>>(&encode_bytes(&[])), Ok(vec![]));
    assert_eq!(rlp::decode::<Vec<u8>>(&encode_bytes(b"dog")), Ok(b"dog".to_vec()));
    let long = vec![0x5au8; 300];
    assert_eq!(rlp::decode::<Vec<u8>>(&encode_bytes(&long)), Ok(long));
}

#[test]
fn decoding_gives_back_lists() {
    let empty = encode_list(&[]);
    let view = rlp::Rlp::new(&empty);
    assert!(view.is_list());
    assert_eq!(view.item_count(), Ok(0));

    let inner = encode_list(&join(encode_u64(1), encode_bytes(b"cat")));
    let outer = encode_list(&join(inner, encode_u64(1024)));
    let view = rlp::Rlp::new(&outer);
    assert_eq!(view.item_count(), Ok(2));
    let first = view.at(0).unwrap();
    assert_eq!(first.item_count(), Ok(2));
    assert_eq!(first.val_at::<u64>(0), Ok(1));
    assert_eq!(first.val_at::<Vec<u8>>(1), Ok(b"cat".to_vec()));
    assert_eq!(view.val_at::<u64>(1), Ok(1024));
}
