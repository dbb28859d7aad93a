use ziggurat::addr::{IpAddr, NetworkAddr};
use ziggurat::codec::DecodeError;

#[test]
fn ipv4_round_trips_through_mapped_form() {
    let a = NetworkAddr { last_seen: None, services: 1, ip: IpAddr::V4([127, 0, 0, 1]), port: 8233 };
    let mut buf = Vec::new();
    a.encode(&mut buf);
    assert_eq!(buf.len(), 26);
    assert_eq!(&buf[0..8], &[1, 0, 0, 0, 0, 0, 0, 0]);
    assert_eq!(&buf[8..24], &[0, 0, 0, 0, 0, 0, 0, 0, 0, 0, 0xff, 0xff, 127, 0, 0, 1]);
    assert_eq!(&buf[24..26], &[0x20, 0x29]);
    let (back, n) = NetworkAddr::decode(&buf, false).unwrap();
    assert_eq!(back, a);
    assert_eq!(n, 26);
}

#[test]
fn ipv6_stays_ipv6() {
    let mut octets = [0u8; 16];
    octets[0] = 0x20;
    octets[1] = 0x01;
    octets[15] = 1;
    let a = NetworkAddr { last_seen: Some(1_600_000_000), services: 9, ip: IpAddr::V6(octets), port: 18233 };
    let mut buf = Vec::new();
    a.encode(&mut buf);
    assert_eq!(buf.len(), 30);
    assert_eq!(&buf[0..4], &1_600_000_000u32.to_le_bytes());
    let (back, n) = NetworkAddr::decode(&buf, true).unwrap();
    assert_eq!(back, a);
    assert_eq!(n, 30);
}

#[test]
fn untimed_payload_has_no_timestamp() {
    let a = NetworkAddr { last_seen: Some(5), services: 0, ip: IpAddr::V4([10, 0, 0, 2]), port: 1 };
    let mut buf = Vec::new();
    a.encode(&mut buf);
    let (back, _) = NetworkAddr::decode(&buf[4..], false).unwrap();
    assert_eq!(back.last_seen, None);
    assert_eq!(back.ip, IpAddr::V4([10, 0, 0, 2]));
}

#[test]
fn mapped_ipv6_reads_as_ipv4() {
    let mut o = [0u8; 16];
    o[10] = 0xff;
    o[11] = 0xff;
    o[12] = 192;
    o[13] = 168;
    o[14] = 1;
    o[15] = 7;
    assert_eq!(IpAddr::from_wire(&o), IpAddr::V4([192, 168, 1, 7]));
    assert_eq!(IpAddr::V4([192, 168, 1, 7]).to_wire(), o);
    let compat = {
        let mut c = [0u8; 16];
        c[15] = 1;
        c
    };
    assert_eq!(IpAddr::from_wire(&compat), IpAddr::V6(compat));
}

#[test]
fn short_address() {
    let buf = [0u8; 25];
    assert_eq!(NetworkAddr::decode(&buf, false).unwrap_err(), DecodeError::UnexpectedEnd);
    assert_eq!(NetworkAddr::decode(&[0u8; 29], true).unwrap_err(), DecodeError::UnexpectedEnd);
}
