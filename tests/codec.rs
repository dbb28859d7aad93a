use ziggurat::codec::{DecodeError, Hash256, Nonce, VarInt, VarStr};

fn varint_round_trip(v: u64, width: usize) {
    let mut buf = Vec::new();
    let n = VarInt(v).encode(&mut buf);
    assert_eq!(n, width);
    assert_eq!(buf.len(), width);
    let (back, m) = VarInt::decode(&buf).unwrap();
    assert_eq!(back, VarInt(v));
    assert_eq!(m, width);
}

#[test]
fn varint_boundary_widths() {
    varint_round_trip(0, 1);
    varint_round_trip(0xfc, 1);
    varint_round_trip(0xfd, 3);
    varint_round_trip(0xffff, 3);
    varint_round_trip(0x10000, 5);
    varint_round_trip(0xffff_ffff, 5);
    varint_round_trip(0x1_0000_0000, 9);
    varint_round_trip(u64::MAX, 9);
}

#[test]
fn varint_exact_bytes() {
    let mut buf = Vec::new();
    VarInt(0xfd).encode(&mut buf);
    assert_eq!(buf, vec![0xfd, 0xfd, 0x00]);
    let mut buf = Vec::new();
    VarInt(0x10000).encode(&mut buf);
    assert_eq!(buf, vec![0xfe, 0x00, 0x00, 0x01, 0x00]);
    let mut buf = Vec::new();
    VarInt(0x1_0000_0000).encode(&mut buf);
    assert_eq!(buf, vec![0xff, 0, 0, 0, 0, 1, 0, 0, 0]);
}

#[test]
fn varint_reads_wide_forms() {
    assert_eq!(VarInt::decode(&[0xfd, 0x05, 0x00]).unwrap(), (VarInt(5), 3));
    assert_eq!(VarInt::decode(&[0xfe, 0xff, 0xff, 0x00, 0x00]).unwrap(), (VarInt(0xffff), 5));
    assert_eq!(VarInt::decode(&[0xff, 0, 0, 0, 0, 0, 0, 0, 0]).unwrap(), (VarInt(0), 9));
}

#[test]
fn varstr_with_wide_length_prefix() {
    let (s, n) = VarStr::decode(&[0xff, 0, 0, 0, 0, 0, 0, 0, 0]).unwrap();
    assert_eq!(s.0, "");
    assert_eq!(n, 9);
    let (s, n) = VarStr::decode(&[0xfd, 0x02, 0x00, b'o', b'k', 0x77]).unwrap();
    assert_eq!(s.0, "ok");
    assert_eq!(n, 5);
}

#[test]
fn varint_truncated() {
    assert_eq!(VarInt::decode(&[]).unwrap_err(), DecodeError::UnexpectedEnd);
    assert_eq!(VarInt::decode(&[0xfd, 0x01]).unwrap_err(), DecodeError::UnexpectedEnd);
    assert_eq!(VarInt::decode(&[0xfe, 0, 0, 1]).unwrap_err(), DecodeError::UnexpectedEnd);
    assert_eq!(VarInt::decode(&[0xff, 0, 0, 0, 0, 1, 0, 0]).unwrap_err(), DecodeError::UnexpectedEnd);
}

#[test]
fn varstr_round_trip() {
    let s = VarStr::new(String::from("/ziggurat:0.1.0/ µ"));
    let mut buf = Vec::new();
    s.encode(&mut buf);
    assert_eq!(buf[0] as usize, "/ziggurat:0.1.0/ µ".len());
    let (back, n) = VarStr::decode(&buf).unwrap();
    assert_eq!(back.0, "/ziggurat:0.1.0/ µ");
    assert_eq!(n, buf.len());
}

#[test]
fn varstr_empty() {
    let mut buf = Vec::new();
    VarStr::new(String::new()).encode(&mut buf);
    assert_eq!(buf, vec![0]);
    let (back, n) = VarStr::decode(&buf).unwrap();
    assert_eq!(back.0, "");
    assert_eq!(n, 1);
}

#[test]
fn varstr_invalid_utf8() {
    assert_eq!(VarStr::decode(&[2, 0xc3, 0x28]).unwrap_err(), DecodeError::InvalidUtf8);
}

#[test]
fn varstr_short() {
    assert_eq!(VarStr::decode(&[3, b'a', b'b']).unwrap_err(), DecodeError::UnexpectedEnd);
}

#[test]
fn nonce_little_endian() {
    let mut buf = Vec::new();
    Nonce::new(0x0102030405060708).encode(&mut buf);
    assert_eq!(buf, vec![8, 7, 6, 5, 4, 3, 2, 1]);
    let (n, k) = Nonce::decode(&buf).unwrap();
    assert_eq!(n, Nonce::new(0x0102030405060708));
    assert_eq!(n.value(), 0x0102030405060708);
    assert_eq!(k, 8);
    assert_eq!(Nonce::decode(&buf[..7]).unwrap_err(), DecodeError::UnexpectedEnd);
}

#[test]
fn random_nonces_differ() {
    let a = Nonce::random();
    let b = Nonce::random();
    let c = Nonce::random();
    assert!(a != b || b != c);
}

#[test]
fn hash_zero_and_round_trip() {
    assert!(Hash256::zeroed().is_zero());
    let mut bytes = [0u8; 32];
    bytes[31] = 1;
    let h = Hash256(bytes);
    assert!(!h.is_zero());
    let mut buf = Vec::new();
    h.encode(&mut buf);
    let (back, n) = Hash256::decode(&buf).unwrap();
    assert_eq!(back, h);
    assert!(back.same(&h));
    assert!(!back.same(&Hash256::zeroed()));
    assert_eq!(n, 32);
    assert_eq!(Hash256::decode(&buf[..31]).unwrap_err(), DecodeError::UnexpectedEnd);
}

#[test]
fn fatal_errors() {
    assert!(DecodeError::BadMagic.is_fatal());
    assert!(DecodeError::ChecksumMismatch.is_fatal());
    assert!(DecodeError::TruncatedFrame.is_fatal());
    assert!(!DecodeError::InvalidUtf8.is_fatal());
    assert!(!DecodeError::UnexpectedEnd.is_fatal());
    assert!(!DecodeError::InvalidCCode(7).is_fatal());
}
