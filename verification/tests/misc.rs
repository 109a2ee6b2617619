use chain_apps::echo::echo_reply;
use chain_apps::hashing::random_value;
use chain_apps::origin::{ensure_signed, BadOrigin, Origin};

#[test]
fn signed_origin_gives_signer() {
    assert_eq!(ensure_signed(Origin::signed(4)), Ok(4));
    assert_eq!(ensure_signed(Origin::Root), Err(BadOrigin));
    assert_eq!(ensure_signed(Origin::Unsigned), Err(BadOrigin));
}

#[test]
fn random_value_hashes_scale_payload() {
    let seed = [7u8; 32];
    let mut payload = seed.to_vec();
    payload.extend_from_slice(&0x0102_0304_0506_0708u64.to_le_bytes());
    payload.push(1);
    payload.extend_from_slice(&9u32.to_le_bytes());
    assert_eq!(payload.len(), 45);
    let expected = sp_io::hashing::blake2_128(&payload);
    assert_eq!(random_value(seed, 0x0102_0304_0506_0708, Some(9)), expected);

    let mut payload_none = seed.to_vec();
    payload_none.extend_from_slice(&5u64.to_le_bytes());
    payload_none.push(0);
    assert_eq!(random_value(seed, 5, None), sp_io::hashing::blake2_128(&payload_none));
    assert_ne!(random_value(seed, 5, None), random_value(seed, 6, None));
}

#[test]
fn echo_returns_what_was_read() {
    let buffer = [1u8, 2, 3, 4, 0, 0, 0, 0, 0, 0, 0, 0, 0, 0, 0, 0];
    assert_eq!(echo_reply(&buffer, 0), None);
    assert_eq!(echo_reply(&buffer, 3), Some(vec![1, 2, 3]));
    assert_eq!(echo_reply(&buffer, 16), Some(buffer.to_vec()));
}
