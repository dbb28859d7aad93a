use ziggurat::addr::{IpAddr, NetworkAddr};
use ziggurat::codec::{DecodeError, Hash256, Nonce, VarStr};
use ziggurat::inv::{Inv, InvHash, ObjectKind};
use ziggurat::message::{checksum, EncodeError, Message, MessageKind};
use ziggurat::payload::{Addr, Block, FilterAdd, FilterLoad, Header, Headers, LocatorHashes};
use ziggurat::reject::{CCode, Reject};
use ziggurat::version::Version;

const MAGIC: [u8; 4] = [0xfa, 0x1a, 0xf9, 0xbf];

fn hash(b: u8) -> Hash256 {
    Hash256([b; 32])
}

fn version() -> Version {
    Version {
        version: 170_100,
        services: 1,
        timestamp: 1_650_000_000,
        addr_recv: NetworkAddr { last_seen: None, services: 1, ip: IpAddr::V4([127, 0, 0, 1]), port: 8233 },
        addr_from: NetworkAddr { last_seen: None, services: 0, ip: IpAddr::V4([0, 0, 0, 0]), port: 0 },
        nonce: Nonce::new(42),
        user_agent: VarStr::new(String::from("/MagicBean:5.0.0/")),
        start_height: 1_000_000,
        relay: true,
    }
}

fn header(b: u8) -> Header {
    Header {
        version: 4,
        prev_block: hash(b),
        merkle_root: hash(b + 1),
        light_client_root: hash(b + 2),
        timestamp: 1_477_641_360,
        bits: 0x1f07ffff,
        nonce: hash(b + 3),
        solution: vec![b; 1344],
    }
}

fn frame(m: &Message) -> Vec<u8> {
    let mut buf = Vec::new();
    m.encode(MAGIC, &mut buf).unwrap();
    buf
}

fn round_trip(m: Message) -> Message {
    let buf = frame(&m);
    let (back, n) = Message::decode(MAGIC, &buf).unwrap();
    assert_eq!(n, buf.len());
    let again = frame(&back);
    assert_eq!(again, buf);
    back
}

fn all_messages() -> Vec<Message> {
    let peer = NetworkAddr { last_seen: Some(1_650_000_000), services: 1, ip: IpAddr::V4([10, 1, 2, 3]), port: 8233 };
    let inv = Inv::new(vec![InvHash::new(ObjectKind::Block, hash(1)), InvHash::new(ObjectKind::Tx, hash(2))]);
    let locator = LocatorHashes::new(170_100, vec![hash(9), hash(8)], Hash256::zeroed());
    vec![
        Message::Version(version()),
        Message::Verack,
        Message::Ping(Nonce::new(7)),
        Message::Pong(Nonce::new(8)),
        Message::GetAddr,
        Message::Addr(Addr(vec![peer])),
        Message::Inv(inv.clone()),
        Message::GetData(inv.clone()),
        Message::NotFound(inv),
        Message::GetBlocks(locator.clone()),
        Message::GetHeaders(locator),
        Message::Block(Block { header: header(3), transactions: vec![1, 0xaa, 0xbb] }),
        Message::Headers(Headers(vec![header(5), header(6)])),
        Message::Tx(vec![1, 2, 3, 4]),
        Message::MemPool,
        Message::Reject(Reject {
            message: VarStr::new(String::from("tx")),
            ccode: CCode::Dust,
            reason: VarStr::new(String::from("dust")),
            data: vec![7; 32],
        }),
        Message::FilterLoad(FilterLoad { filter: vec![0xf0; 10], hash_fn_count: 11, tweak: 5, flags: 1 }),
        Message::FilterAdd(FilterAdd { data: vec![3; 20] }),
        Message::FilterClear,
    ]
}

#[test]
fn every_kind_round_trips() {
    for m in all_messages() {
        let kind = m.kind();
        let back = round_trip(m);
        assert_eq!(back.kind(), kind);
    }
}

#[test]
fn version_fields_survive() {
    match round_trip(Message::Version(version())) {
        Message::Version(v) => {
            assert_eq!(v.version, 170_100);
            assert_eq!(v.nonce, Nonce::new(42));
            assert_eq!(v.user_agent.0, "/MagicBean:5.0.0/");
            assert_eq!(v.addr_recv.ip, IpAddr::V4([127, 0, 0, 1]));
            assert_eq!(v.addr_recv.last_seen, None);
            assert_eq!(v.start_height, 1_000_000);
            assert!(v.relay);
        }
        other => panic!("expected a version, got {:?}", other),
    }
}

#[test]
fn ping_envelope_bytes() {
    let buf = frame(&Message::Ping(Nonce::new(1)));
    assert_eq!(buf.len(), 32);
    assert_eq!(&buf[0..4], &MAGIC);
    assert_eq!(&buf[4..16], b"ping\0\0\0\0\0\0\0\0");
    assert_eq!(&buf[16..20], &[8, 0, 0, 0]);
    assert_eq!(&buf[20..24], checksum(&buf[24..]).as_slice());
    assert_eq!(&buf[24..], &[1, 0, 0, 0, 0, 0, 0, 0]);
}

#[test]
fn empty_payload_checksum() {
    let buf = frame(&Message::Verack);
    assert_eq!(buf.len(), 24);
    assert_eq!(&buf[4..16], b"verack\0\0\0\0\0\0");
    assert_eq!(&buf[20..24], &[0x5d, 0xf6, 0xe0, 0xe2]);
}

#[test]
fn mixed_inventory_round_trips() {
    let inv = Inv::new(vec![InvHash::new(ObjectKind::Block, hash(0xb1)), InvHash::new(ObjectKind::Tx, hash(0x71))]);
    match round_trip(Message::Inv(inv)) {
        Message::Inv(back) => {
            assert_eq!(back.0.len(), 2);
            assert_eq!(back.0[0], InvHash::new(ObjectKind::Block, hash(0xb1)));
            assert_eq!(back.0[1], InvHash::new(ObjectKind::Tx, hash(0x71)));
        }
        other => panic!("expected an inventory, got {:?}", other),
    }
}

#[test]
fn changed_payload_byte_fails_checksum() {
    for m in all_messages() {
        let buf = frame(&m);
        for i in 24..buf.len() {
            let mut bad = buf.clone();
            bad[i] ^= 0x01;
            assert_eq!(Message::decode(MAGIC, &bad).unwrap_err(), DecodeError::ChecksumMismatch);
        }
    }
}

#[test]
fn bad_magic_is_refused() {
    let mut buf = frame(&Message::Verack);
    buf[0] = 0x24;
    assert_eq!(Message::decode(MAGIC, &buf).unwrap_err(), DecodeError::BadMagic);
}

#[test]
fn truncated_frames() {
    let buf = frame(&Message::Ping(Nonce::new(3)));
    assert_eq!(Message::decode(MAGIC, &buf[..23]).unwrap_err(), DecodeError::TruncatedFrame);
    assert_eq!(Message::decode(MAGIC, &buf[..31]).unwrap_err(), DecodeError::TruncatedFrame);
}

#[test]
fn unknown_command_is_kept() {
    let mut buf = Vec::new();
    let m = Message::Unknown { command: *b"sendheaders\0", payload: vec![9, 9] };
    m.encode(MAGIC, &mut buf).unwrap();
    let (back, n) = Message::decode(MAGIC, &buf).unwrap();
    assert_eq!(n, 26);
    assert_eq!(back.kind(), None);
    match back {
        Message::Unknown { command, payload } => {
            assert_eq!(&command, b"sendheaders\0");
            assert_eq!(payload, vec![9, 9]);
        }
        other => panic!("expected an unknown message, got {:?}", other),
    }
}

#[test]
fn short_payload_is_a_decode_error() {
    let mut payload = Vec::new();
    Message::Ping(Nonce::new(3)).encode_payload(&mut payload);
    let short = &payload[..4];
    let mut buf = Vec::new();
    buf.extend_from_slice(&MAGIC);
    buf.extend_from_slice(b"ping\0\0\0\0\0\0\0\0");
    buf.extend_from_slice(&4u32.to_le_bytes());
    buf.extend_from_slice(&checksum(short));
    buf.extend_from_slice(short);
    let err = Message::decode(MAGIC, &buf).unwrap_err();
    assert_eq!(err, DecodeError::UnexpectedEnd);
    assert!(!err.is_fatal());
}

#[test]
fn invalid_inventory_kind() {
    let mut body = vec![1u8];
    body.extend_from_slice(&9u32.to_le_bytes());
    body.extend_from_slice(&[0u8; 32]);
    assert_eq!(Inv::decode(&body).unwrap_err(), DecodeError::InvalidInvKind(9));
}

#[test]
fn trailing_bytes_after_frame_are_left() {
    let mut buf = frame(&Message::Pong(Nonce::new(5)));
    let len = buf.len();
    buf.extend_from_slice(&[1, 2, 3]);
    let (_, n) = Message::decode(MAGIC, &buf).unwrap();
    assert_eq!(n, len);
}

#[test]
fn message_kinds() {
    assert_eq!(Message::GetAddr.kind(), Some(MessageKind::GetAddr));
    assert_eq!(Message::FilterClear.kind(), Some(MessageKind::FilterClear));
    assert_eq!(EncodeError::PayloadTooLarge, EncodeError::PayloadTooLarge);
}

#[test]
fn block_hash_is_double_sha256() {
    let h = header(1);
    let a = h.block_hash();
    let b = header(1).block_hash();
    assert_eq!(a, b);
    assert_ne!(a, header(2).block_hash());
    let mut bytes = Vec::new();
    h.encode(&mut bytes);
    assert_ne!(&a.0[..], &bytes[..32]);
}
