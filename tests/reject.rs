use ziggurat::codec::{DecodeError, VarStr};
use ziggurat::reject::{CCode, Reject};

#[test]
fn ccode_bytes() {
    let all = [
        (CCode::Malformed, 0x01),
        (CCode::Invalid, 0x10),
        (CCode::Obsolete, 0x11),
        (CCode::Duplicate, 0x12),
        (CCode::NonStandard, 0x40),
        (CCode::Dust, 0x41),
        (CCode::InsufficientFee, 0x42),
        (CCode::Checkpoint, 0x43),
        (CCode::Other, 0x50),
    ];
    for (c, b) in all {
        let mut buf = Vec::new();
        c.encode(&mut buf);
        assert_eq!(buf, vec![b]);
        assert_eq!(CCode::decode(&buf).unwrap(), (c, 1));
    }
}

#[test]
fn unknown_ccode_is_refused() {
    assert_eq!(CCode::decode(&[0x02]).unwrap_err(), DecodeError::InvalidCCode(0x02));
    assert_eq!(CCode::decode(&[]).unwrap_err(), DecodeError::UnexpectedEnd);
}

#[test]
fn reject_keeps_data_of_any_length() {
    for len in [0usize, 1, 32, 100] {
        let r = Reject {
            message: VarStr::new(String::from("block")),
            ccode: CCode::Invalid,
            reason: VarStr::new(String::from("bad-txns")),
            data: vec![0xab; len],
        };
        let mut buf = Vec::new();
        r.encode(&mut buf);
        assert_eq!(buf.len(), 6 + 1 + 9 + len);
        let (back, n) = Reject::decode(&buf).unwrap();
        assert_eq!(n, buf.len());
        assert_eq!(back.message.0, "block");
        assert_eq!(back.ccode, CCode::Invalid);
        assert_eq!(back.reason.0, "bad-txns");
        assert_eq!(back.data, vec![0xab; len]);
    }
}

#[test]
fn reject_with_bad_code() {
    let buf = vec![2, b't', b'x', 0x99, 0];
    assert_eq!(Reject::decode(&buf).unwrap_err(), DecodeError::InvalidCCode(0x99));
}
