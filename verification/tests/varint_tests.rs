use mcclient::errors::McError;
use mcclient::varint::{from_varint_bytes, to_varint, VarInt};

#[test]
fn from_i32_to_varint() {
    assert_eq!(VarInt::from_i32(0).bytes(), [0]);
    assert_eq!(VarInt::from_i32(1).bytes(), [1]);
    assert_eq!(VarInt::from_i32(2).bytes(), [2]);
    assert_eq!(VarInt::from_i32(127).bytes(), [127]);
    assert_eq!(VarInt::from_i32(128).bytes(), [128, 1]);
    assert_eq!(VarInt::from_i32(255).bytes(), [255, 1]);
    assert_eq!(VarInt::from_i32(25565).bytes(), [221, 199, 1]);
    assert_eq!(VarInt::from_i32(2097151).bytes(), [255, 255, 127]);
    assert_eq!(VarInt::from_i32(2147483647).bytes(), [255, 255, 255, 255, 7]);
    assert_eq!(VarInt::from_i32(-1).bytes(), [255, 255, 255, 255, 15]);
    assert_eq!(VarInt::from_i32(-2147483648).bytes(), [128, 128, 128, 128, 8]);
}

#[test]
fn from_varint_to_i32() {
    assert_eq!(0, VarInt::from_bytes(&[0][..]).unwrap().value());
    assert_eq!(1, VarInt::from_bytes(&[1][..]).unwrap().value());
    assert_eq!(2, VarInt::from_bytes(&[2][..]).unwrap().value());
    assert_eq!(127, VarInt::from_bytes(&[127][..]).unwrap().value());
    assert_eq!(128, VarInt::from_bytes(&[128, 1][..]).unwrap().value());
    assert_eq!(255, VarInt::from_bytes(&[255, 1][..]).unwrap().value());
    assert_eq!(25565, VarInt::from_bytes(&[221, 199, 1][..]).unwrap().value());
    assert_eq!(2097151, VarInt::from_bytes(&[255, 255, 127][..]).unwrap().value());
    assert_eq!(
        2147483647,
        VarInt::from_bytes(&[255, 255, 255, 255, 7][..]).unwrap().value()
    );
    assert_eq!(
        -1,
        VarInt::from_bytes(&[255, 255, 255, 255, 15][..]).unwrap().value()
    );
    assert_eq!(
        -2147483648,
        VarInt::from_bytes(&[128, 128, 128, 128, 8][..]).unwrap().value()
    );
}

#[test]
fn from_bytes_to_varint() {
    assert_eq!(&[0][..], VarInt::from_bytes(&[0, 0][..]).unwrap().bytes());
    assert_eq!(&[1][..], VarInt::from_bytes(&[1, 0][..]).unwrap().bytes());
    assert_eq!(&[2][..], VarInt::from_bytes(&[2, 0][..]).unwrap().bytes());
    assert_eq!(&[127][..], VarInt::from_bytes(&[127, 0][..]).unwrap().bytes());
    assert_eq!(&[128, 1][..], VarInt::from_bytes(&[128, 1, 0][..]).unwrap().bytes());
    assert_eq!(&[255, 1][..], VarInt::from_bytes(&[255, 1, 0][..]).unwrap().bytes());
    assert_eq!(
        &[221, 199, 1][..],
        VarInt::from_bytes(&[221, 199, 1, 0][..]).unwrap().bytes()
    );
}

#[test]
fn round_trip_all_reference_values() {
    for v in [
        0,
        1,
        2,
        127,
        128,
        255,
        25565,
        2097151,
        2147483647,
        -1,
        -2147483648,
    ] {
        let encoded = to_varint(v);
        let (decoded, consumed) = from_varint_bytes(&encoded).unwrap();
        assert_eq!(decoded, v);
        assert_eq!(consumed, encoded.len());
    }
}

#[test]
fn malformed_varint_six_continuation_bytes() {
    let bytes = [0x80u8, 0x80, 0x80, 0x80, 0x80, 0x80];
    assert_eq!(from_varint_bytes(&bytes), Err(McError::MalformedVarInt));
    assert!(matches!(
        VarInt::from_bytes(&bytes),
        Err(McError::MalformedVarInt)
    ));
}

#[test]
fn truncated_varint_reports_truncated_frame() {
    assert_eq!(from_varint_bytes(&[0x80u8]), Err(McError::TruncatedFrame));
    assert_eq!(from_varint_bytes(&[]), Err(McError::TruncatedFrame));
}

#[test]
fn decode_consumes_only_the_descriptor() {
    let (value, consumed) = from_varint_bytes(&[221, 199, 1, 0xAA, 0xBB]).unwrap();
    assert_eq!(value, 25565);
    assert_eq!(consumed, 3);
}

#[test]
fn from_vec_front_drains_descriptor_bytes() {
    let mut bytes = vec![128u8, 1, 7, 9];
    let v = VarInt::from_vec_front(&mut bytes).unwrap();
    assert_eq!(v.value(), 128);
    assert_eq!(bytes, vec![7, 9]);
}

#[test]
fn set_replaces_the_held_value() {
    let mut v = VarInt::from_i32(1);
    v.set(25565);
    assert_eq!(v.value(), 25565);
    assert_eq!(v.bytes(), [221, 199, 1]);
    assert_eq!(v.len(), 3);
}
