use cid::multihash::Multihash;
use fvm::encoding::{
    balance_from_bytes, balance_to_bytes, cid_from_bytes, cid_to_bytes, decode_actor_state,
    encode_actor_state, read_head, read_varint, write_head, write_varint,
};
use fvm::ipld::{compute_cid, Cid, BLAKE2B_256, DAG_CBOR, IDENTITY_HASH, IPLD_RAW, SHA2_256};
use fvm::state_tree::ActorState;
use serde_bytes::ByteBuf;

fn outside_cid(c: &Cid) -> cid::Cid {
    cid::Cid::new_v1(c.codec(), Multihash::<64>::wrap(c.hash_code(), c.digest()).unwrap())
}

fn sample_cids() -> Vec<Cid> {
    vec![
        compute_cid(DAG_CBOR, BLAKE2B_256, b"some block").unwrap(),
        compute_cid(IPLD_RAW, SHA2_256, b"").unwrap(),
        Cid::new_v1(IPLD_RAW, IDENTITY_HASH, b"fil/5/account".to_vec()),
        Cid::new_v1(0, 0, Vec::new()),
        Cid::new_v1(u64::MAX, u64::MAX, vec![0xff; 64]),
        Cid::new_v1(128, 16_384, vec![7; 33]),
    ]
}

fn varint_of(n: u64) -> Vec<u8> {
    let mut out = Vec::new();
    write_varint(&mut out, n);
    out
}

fn head_of(major: u8, arg: u64) -> Vec<u8> {
    let mut out = Vec::new();
    write_head(&mut out, major, arg);
    out
}

#[test]
fn varint_has_the_known_encodings() {
    assert_eq!(varint_of(0), vec![0x00]);
    assert_eq!(varint_of(1), vec![0x01]);
    assert_eq!(varint_of(127), vec![0x7f]);
    assert_eq!(varint_of(128), vec![0x80, 0x01]);
    assert_eq!(varint_of(300), vec![0xac, 0x02]);
    assert_eq!(varint_of(0xb220), vec![0xa0, 0xe4, 0x02]);
    assert_eq!(
        varint_of(u64::MAX),
        vec![0xff, 0xff, 0xff, 0xff, 0xff, 0xff, 0xff, 0xff, 0xff, 0x01]
    );
}

#[test]
fn varint_round_trips_and_reports_the_position() {
    for n in [0u64, 1, 127, 128, 255, 256, 16_383, 16_384, 0xb220, u64::MAX - 1, u64::MAX] {
        let mut bytes = vec![0xee, 0xee];
        write_varint(&mut bytes, n);
        let end = bytes.len();
        bytes.push(0x55);
        assert_eq!(read_varint(&bytes, 2), Some((n, end)));
    }
}

#[test]
fn varint_refuses_what_is_not_the_shortest_encoding() {
    assert_eq!(read_varint(&[0x80, 0x00], 0), None);
    assert_eq!(read_varint(&[0xff, 0x80, 0x00], 0), None);
    // Cut short.
    assert_eq!(read_varint(&[0x80], 0), None);
    assert_eq!(read_varint(&[], 0), None);
    // One more than the largest number of 64 bits.
    assert_eq!(
        read_varint(&[0x80, 0x80, 0x80, 0x80, 0x80, 0x80, 0x80, 0x80, 0x80, 0x02], 0),
        None
    );
}

#[test]
fn cid_bytes_are_those_of_the_cid_crate() {
    for c in sample_cids() {
        assert_eq!(cid_to_bytes(&c), outside_cid(&c).to_bytes());
    }
}

#[test]
fn cid_bytes_round_trip() {
    for c in sample_cids() {
        let bytes = cid_to_bytes(&c);
        assert_eq!(cid_from_bytes(&bytes), Some(c.clone()));
        // What the cid crate reads from the same bytes is the same identifier.
        let read = cid::Cid::read_bytes(&bytes[..]).unwrap();
        assert_eq!(read, outside_cid(&c));
        let mut longer = bytes.clone();
        longer.push(0);
        assert_eq!(cid_from_bytes(&longer), None);
        assert_eq!(cid_from_bytes(&bytes[..bytes.len() - 1]), None);
    }
}

#[test]
fn cid_of_another_version_or_with_a_long_digest_is_refused() {
    // Version 2.
    assert_eq!(cid_from_bytes(&[2, 0x55, 0, 0]), None);
    // A digest of 65 bytes.
    let mut bytes = vec![1, 0x55, 0, 65];
    bytes.extend_from_slice(&[0u8; 65]);
    assert_eq!(cid_from_bytes(&bytes), None);
    // A digest of 64 bytes is the longest that is read.
    let mut bytes = vec![1, 0x55, 0, 64];
    bytes.extend_from_slice(&[0u8; 64]);
    assert_eq!(cid_from_bytes(&bytes), Some(Cid::new_v1(0x55, 0, vec![0u8; 64])));
    assert_eq!(cid_from_bytes(&[]), None);
}

#[test]
fn cbor_head_has_the_five_forms() {
    assert_eq!(head_of(0, 0), vec![0x00]);
    assert_eq!(head_of(0, 23), vec![0x17]);
    assert_eq!(head_of(0, 24), vec![0x18, 24]);
    assert_eq!(head_of(2, 255), vec![0x58, 0xff]);
    assert_eq!(head_of(0, 256), vec![0x19, 0x01, 0x00]);
    assert_eq!(head_of(4, 65_535), vec![0x99, 0xff, 0xff]);
    assert_eq!(head_of(0, 65_536), vec![0x1a, 0x00, 0x01, 0x00, 0x00]);
    assert_eq!(head_of(6, 42), vec![0xd8, 0x2a]);
    assert_eq!(head_of(0, 0xffff_ffff), vec![0x1a, 0xff, 0xff, 0xff, 0xff]);
    assert_eq!(
        head_of(0, 0x1_0000_0000),
        vec![0x1b, 0x00, 0x00, 0x00, 0x01, 0x00, 0x00, 0x00, 0x00]
    );
    assert_eq!(
        head_of(0, 0x0102_0304_0506_0708),
        vec![0x1b, 0x01, 0x02, 0x03, 0x04, 0x05, 0x06, 0x07, 0x08]
    );
    assert_eq!(head_of(7, u64::MAX), vec![0xfb, 0xff, 0xff, 0xff, 0xff, 0xff, 0xff, 0xff, 0xff]);
}

#[test]
fn cbor_head_round_trips_and_refuses_long_forms() {
    for major in 0u8..8 {
        for arg in [0u64, 23, 24, 255, 256, 65_535, 65_536, 0xffff_ffff, 0x1_0000_0000, u64::MAX]
        {
            let bytes = head_of(major, arg);
            assert_eq!(read_head(&bytes, 0), Some((major, arg, bytes.len())));
        }
    }
    assert_eq!(read_head(&[0x18, 23], 0), None);
    assert_eq!(read_head(&[0x19, 0x00, 0xff], 0), None);
    assert_eq!(read_head(&[0x1a, 0x00, 0x00, 0xff, 0xff], 0), None);
    assert_eq!(read_head(&[0x1b, 0, 0, 0, 0, 0xff, 0xff, 0xff, 0xff], 0), None);
    assert_eq!(read_head(&[0x19, 0x01], 0), None);
    assert_eq!(read_head(&[0x1c], 0), None);
    assert_eq!(read_head(&[0x1f], 0), None);
    assert_eq!(read_head(&[], 0), None);
}

#[test]
fn balance_bytes_have_a_sign_byte_and_no_leading_zero() {
    assert_eq!(balance_to_bytes(0), Vec::<u8>::new());
    assert_eq!(balance_to_bytes(1), vec![0, 1]);
    assert_eq!(balance_to_bytes(255), vec![0, 255]);
    assert_eq!(balance_to_bytes(256), vec![0, 1, 0]);
    assert_eq!(balance_to_bytes(0x0102_0304), vec![0, 1, 2, 3, 4]);
    let mut largest = vec![0u8];
    largest.extend_from_slice(&[0xff; 16]);
    assert_eq!(balance_to_bytes(u128::MAX), largest);
    for b in [0u128, 1, 255, 256, 1 << 64, u128::MAX] {
        assert_eq!(balance_from_bytes(&balance_to_bytes(b)), Some(b));
    }
    // A negative sign, a lone sign, a leading zero, and a number of 17 bytes.
    assert_eq!(balance_from_bytes(&[1, 5]), None);
    assert_eq!(balance_from_bytes(&[0]), None);
    assert_eq!(balance_from_bytes(&[0, 0, 5]), None);
    let mut too_long = vec![0u8, 1];
    too_long.extend_from_slice(&[0; 16]);
    assert_eq!(balance_from_bytes(&too_long), None);
}

#[test]
fn actor_state_bytes_are_those_of_the_dag_cbor_codec() {
    let cids = sample_cids();
    for (i, balance) in [0u128, 1, 70, 1 << 100, u128::MAX].iter().enumerate() {
        for sequence in [0u64, 1, 23, 24, 1 << 40, u64::MAX] {
            let code = cids[i % cids.len()].clone();
            let state = cids[(i + 1) % cids.len()].clone();
            let record = ActorState::new(code.clone(), state.clone(), sequence, *balance);
            let tuple = (
                outside_cid(&code),
                outside_cid(&state),
                sequence,
                ByteBuf::from(balance_to_bytes(*balance)),
            );
            let expected = serde_ipld_dagcbor::to_vec(&tuple).unwrap();
            assert_eq!(encode_actor_state(&record), expected);
            let read: (cid::Cid, cid::Cid, u64, ByteBuf) =
                serde_ipld_dagcbor::from_slice(&encode_actor_state(&record)).unwrap();
            assert_eq!(read, tuple);
        }
    }
}

#[test]
fn actor_state_round_trips() {
    let cids = sample_cids();
    for code in &cids {
        for state in &cids {
            for (sequence, balance) in
                [(0u64, 0u128), (0, 5), (9, 0), (u64::MAX, u128::MAX), (1 << 33, 1 << 77)]
            {
                let record = ActorState::new(code.clone(), state.clone(), sequence, balance);
                let bytes = encode_actor_state(&record);
                assert_eq!(decode_actor_state(&bytes), Some(record));
            }
        }
    }
}

#[test]
fn actor_state_with_zero_balance_and_sequence_has_the_known_bytes() {
    let code = Cid::new_v1(IPLD_RAW, IDENTITY_HASH, b"fil/5/account".to_vec());
    let state = Cid::new_v1(DAG_CBOR, IDENTITY_HASH, vec![0x80]);
    let record = ActorState::new(code, state, 0, 0);
    let mut expected = vec![0x84];
    // tag 42, byte string of 18: a zero byte, version 1, raw, identity, 13 bytes.
    expected.extend_from_slice(&[0xd8, 0x2a, 0x52, 0x00, 0x01, 0x55, 0x00, 0x0d]);
    expected.extend_from_slice(b"fil/5/account");
    expected.extend_from_slice(&[0xd8, 0x2a, 0x46, 0x00, 0x01, 0x71, 0x00, 0x01, 0x80]);
    expected.push(0x00);
    expected.push(0x40);
    assert_eq!(encode_actor_state(&record), expected);
    assert_eq!(decode_actor_state(&expected), Some(record));
}

#[test]
fn actor_state_with_anything_wrong_is_refused() {
    let code = Cid::new_v1(IPLD_RAW, IDENTITY_HASH, b"fil/5/account".to_vec());
    let state = Cid::new_v1(DAG_CBOR, IDENTITY_HASH, vec![0x80]);
    let good = encode_actor_state(&ActorState::new(code, state, 7, 300));
    assert!(decode_actor_state(&good).is_some());
    // One byte more, one less.
    let mut longer = good.clone();
    longer.push(0);
    assert_eq!(decode_actor_state(&longer), None);
    assert_eq!(decode_actor_state(&good[..good.len() - 1]), None);
    assert_eq!(decode_actor_state(&[]), None);
    // An array of five, an array of three.
    let mut five = good.clone();
    five[0] = 0x85;
    assert_eq!(decode_actor_state(&five), None);
    let mut three = good.clone();
    three[0] = 0x83;
    assert_eq!(decode_actor_state(&three), None);
    // Another tag.
    let mut tagged = good.clone();
    tagged[2] = 0x2b;
    assert_eq!(decode_actor_state(&tagged), None);
    // A multibase prefix other than zero.
    let mut prefixed = good.clone();
    prefixed[4] = 0x01;
    assert_eq!(decode_actor_state(&prefixed), None);
    // A negative balance.
    let mut negative = good.clone();
    let at = negative.len() - 3;
    assert_eq!(negative[at], 0);
    negative[at] = 1;
    assert_eq!(decode_actor_state(&negative), None);
    // Every single byte that is flipped gives another record or none.
    for i in 0..good.len() {
        let mut flipped = good.clone();
        flipped[i] ^= 0x01;
        if let Some(record) = decode_actor_state(&flipped) {
            assert_eq!(encode_actor_state(&record), flipped);
        }
    }
}
