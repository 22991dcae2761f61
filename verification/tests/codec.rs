use world_host_server::c2s_message::{self, C2SReadError, WorldHostC2SMessage};
use world_host_server::connection::JoinType;
use world_host_server::ids::Uuid;
use world_host_server::in_message::{self, InReadError, UnknownTypeIdError, WorldHostInMessage};
use world_host_server::out_message::{self, WorldHostOutMessage};
use world_host_server::s2c_message::WorldHostS2CMessage;
use world_host_server::wire::{ByteCursor, ByteWriter, WireError};

const SAMPLE: u128 = 0xa1a2a3a4_b1b2c1c2_d1d2d3d4_d5d6d7d8;

fn sample_bytes() -> Vec<u8> {
    vec![
        0xa1, 0xa2, 0xa3, 0xa4, 0xb1, 0xb2, 0xc1, 0xc2, 0xd1, 0xd2, 0xd3, 0xd4, 0xd5, 0xd6, 0xd7,
        0xd8,
    ]
}

fn uuid_bytes(value: u128) -> Vec<u8> {
    value.to_be_bytes().to_vec()
}

fn frame(parts: &[&[u8]]) -> Vec<u8> {
    let mut out = Vec::new();
    for p in parts {
        out.extend_from_slice(p);
    }
    out
}

#[test]
fn read_uuid_joins_the_two_halves() {
    let mut c = ByteCursor::new(sample_bytes());
    let u = c2s_message::read_uuid(&mut c).unwrap();
    assert_eq!(u, Uuid(SAMPLE));
    assert_eq!(c.position_index(), 16);
}

#[test]
fn read_uuid_in_earlier_protocol() {
    let mut c = ByteCursor::new(sample_bytes());
    assert_eq!(in_message::read_uuid(&mut c), Ok(Uuid(SAMPLE)));
}

#[test]
fn read_uuid_short_input_consumes_everything() {
    let mut c = ByteCursor::new(vec![1, 2, 3, 4, 5, 6, 7, 8, 9, 10]);
    let r = c2s_message::read_uuid(&mut c);
    assert!(matches!(r, Err(C2SReadError::Io(WireError::UnexpectedEof))));
    assert_eq!(c.position_index(), 10);
}

#[test]
fn write_uuid_splits_into_halves() {
    let mut w = ByteWriter::new(vec![0x55]);
    w.set_position(1);
    out_message::write_uuid(&mut w, &Uuid(SAMPLE));
    assert_eq!(w.position_index(), 17);
    let mut expected = vec![0x55];
    expected.extend(sample_bytes());
    assert_eq!(w.into_inner(), expected);
}

#[test]
fn write_uuid_overwrites_at_the_position() {
    let mut w = ByteWriter::new(vec![9; 20]);
    w.set_position(2);
    out_message::write_uuid(&mut w, &Uuid(SAMPLE));
    assert_eq!(w.position_index(), 18);
    assert_eq!(w.into_inner(), frame(&[&[9, 9], &sample_bytes(), &[9, 9]]));
}

#[test]
fn write_uuid_runs_past_the_end() {
    let mut w = ByteWriter::new(vec![9; 10]);
    w.set_position(4);
    out_message::write_uuid(&mut w, &Uuid(SAMPLE));
    assert_eq!(w.position_index(), 20);
    assert_eq!(w.into_inner(), frame(&[&[9, 9, 9, 9], &sample_bytes()]));
}

#[test]
fn write_past_the_end_fills_the_gap_with_zeros() {
    let mut w = ByteWriter::new(vec![7, 7]);
    w.set_position(5);
    out_message::write_uuid(&mut w, &Uuid(SAMPLE));
    assert_eq!(w.position_index(), 21);
    assert_eq!(w.into_inner(), frame(&[&[7, 7, 0, 0, 0], &sample_bytes()]));
    let mut w = ByteWriter::new(vec![1]);
    w.set_position(3);
    out_message::write_string(&mut w, "ab");
    assert_eq!(w.into_inner(), vec![1, 0, 0, b'a', b'b']);
}

#[test]
fn read_from_past_the_end() {
    let mut c = ByteCursor::new(vec![1, 2, 3]);
    c.set_position(10);
    assert_eq!(c.read_u8(), Err(WireError::UnexpectedEof));
    assert_eq!(c.position_index(), 10);
    assert!(matches!(
        c2s_message::read_uuid(&mut c),
        Err(C2SReadError::Io(WireError::UnexpectedEof))
    ));
    assert_eq!(c.position_index(), 10);
    c.set_position(1);
    assert_eq!(c.read_u32(), Err(WireError::UnexpectedEof));
    assert_eq!(c.position_index(), 3);
    let mut c = ByteCursor::new(vec![1, 2, 3]);
    c.set_position(7);
    assert!(matches!(WorldHostC2SMessage::read(c), Err(C2SReadError::Io(WireError::UnexpectedEof))));
}

#[test]
fn write_string_overwrites_at_the_position() {
    let mut w = ByteWriter::new(b"hello world".to_vec());
    w.set_position(6);
    out_message::write_string(&mut w, "there");
    assert_eq!(w.position_index(), 11);
    assert_eq!(w.into_inner(), b"hello there".to_vec());
    let mut w = ByteWriter::new(b"abc".to_vec());
    w.set_position(1);
    out_message::write_string(&mut w, "xyzw");
    assert_eq!(w.into_inner(), b"axyzw".to_vec());
    let mut w = ByteWriter::new(b"abcdef".to_vec());
    w.set_position(1);
    out_message::write_string(&mut w, "");
    assert_eq!(w.position_index(), 1);
    assert_eq!(w.into_inner(), b"abcdef".to_vec());
}

#[test]
fn uuid_round_trip_through_the_wire() {
    for value in [0u128, 1, u128::MAX, SAMPLE, 1u128 << 64, (1u128 << 64) - 1] {
        let mut w = ByteWriter::new(Vec::new());
        out_message::write_uuid(&mut w, &Uuid(value));
        let mut c = ByteCursor::new(w.into_inner());
        assert_eq!(c2s_message::read_uuid(&mut c).unwrap(), Uuid(value));
    }
}

#[test]
fn big_endian_integers() {
    let mut c = ByteCursor::new(vec![0x12, 0x34, 0x56, 0x78, 0x9a, 0xbc, 0xde, 0xf0, 0x01, 0x02, 0x03, 0x04, 0x05, 0x06]);
    assert_eq!(c.read_u8(), Ok(0x12));
    assert_eq!(c.read_u16(), Ok(0x3456));
    assert_eq!(c.read_u32(), Ok(0x789abcde));
    assert_eq!(c.read_u64(), Err(WireError::UnexpectedEof));
    assert_eq!(c.position_index(), 14);
    assert_eq!(c.read_u8(), Err(WireError::UnexpectedEof));
}

#[test]
fn read_u64_value() {
    let mut c = ByteCursor::new(vec![0xf0, 0xde, 0xbc, 0x9a, 0x78, 0x56, 0x34, 0x12]);
    assert_eq!(c.read_u64(), Ok(0xf0debc9a78563412));
}

#[test]
fn c2s_list_online() {
    let data = frame(&[&[0], &[0, 0, 0, 2], &uuid_bytes(7), &uuid_bytes(SAMPLE)]);
    let m = WorldHostC2SMessage::read(ByteCursor::new(data)).unwrap();
    assert_eq!(m, WorldHostC2SMessage::ListOnline { friends: vec![Uuid(7), Uuid(SAMPLE)] });
}

#[test]
fn c2s_empty_lists() {
    let p = WorldHostC2SMessage::read(ByteCursor::new(vec![3, 0, 0, 0, 0])).unwrap();
    assert_eq!(p, WorldHostC2SMessage::PublishedWorld { friends: vec![] });
    let c = WorldHostC2SMessage::read(ByteCursor::new(vec![4, 0, 0, 0, 0])).unwrap();
    assert_eq!(c, WorldHostC2SMessage::ClosedWorld { friends: vec![] });
}

#[test]
fn c2s_single_uuid_messages() {
    let data = frame(&[&[1], &uuid_bytes(SAMPLE)]);
    assert_eq!(
        WorldHostC2SMessage::read(ByteCursor::new(data)).unwrap(),
        WorldHostC2SMessage::IsOnlineTo { connection_id: Uuid(SAMPLE) }
    );
    let data = frame(&[&[2], &uuid_bytes(9)]);
    assert_eq!(
        WorldHostC2SMessage::read(ByteCursor::new(data)).unwrap(),
        WorldHostC2SMessage::FriendRequest { to_user: Uuid(9) }
    );
    let data = frame(&[&[5], &uuid_bytes(10)]);
    assert_eq!(
        WorldHostC2SMessage::read(ByteCursor::new(data)).unwrap(),
        WorldHostC2SMessage::RequestJoin { friend: Uuid(10) }
    );
}

#[test]
fn c2s_join_granted() {
    let data = frame(&[&[6], &uuid_bytes(11), &[0], &[0x63, 0xdd]]);
    assert_eq!(
        WorldHostC2SMessage::read(ByteCursor::new(data)).unwrap(),
        WorldHostC2SMessage::JoinGranted {
            connection_id: Uuid(11),
            join_type: JoinType::UPnP { port: 25565 }
        }
    );
    let data = frame(&[&[6], &uuid_bytes(11), &[1]]);
    assert_eq!(
        WorldHostC2SMessage::read(ByteCursor::new(data)).unwrap(),
        WorldHostC2SMessage::JoinGranted { connection_id: Uuid(11), join_type: JoinType::Proxy }
    );
}

#[test]
fn c2s_unknown_type_id() {
    let err = WorldHostC2SMessage::read(ByteCursor::new(vec![7, 1, 2])).unwrap_err();
    assert_eq!(err.to_string(), "Received packet with unknown type_id from client: 7");
    let err = WorldHostC2SMessage::read(ByteCursor::new(vec![255])).unwrap_err();
    assert_eq!(err.to_string(), "Received packet with unknown type_id from client: 255");
}

#[test]
fn c2s_unknown_join_type_id() {
    let data = frame(&[&[6], &uuid_bytes(11), &[42]]);
    let err = WorldHostC2SMessage::read(ByteCursor::new(data)).unwrap_err();
    assert_eq!(err.to_string(), "Received packet with unknown join_type_id from client: 42");
}

#[test]
fn c2s_truncated_messages() {
    for data in [
        vec![],
        vec![0, 0, 0],
        vec![0, 0, 0, 0, 1],
        frame(&[&[1], &[0; 15]]),
        frame(&[&[6], &uuid_bytes(1)]),
        frame(&[&[6], &uuid_bytes(1), &[0], &[1]]),
    ] {
        let err = WorldHostC2SMessage::read(ByteCursor::new(data)).unwrap_err();
        assert!(matches!(err, C2SReadError::Io(WireError::UnexpectedEof)));
        assert_eq!(err.to_string(), "unexpected end of file");
    }
}

#[test]
fn c2s_count_larger_than_the_frame() {
    let data = frame(&[&[0], &[0xff, 0xff, 0xff, 0xff], &uuid_bytes(1)]);
    let err = WorldHostC2SMessage::read(ByteCursor::new(data)).unwrap_err();
    assert!(matches!(err, C2SReadError::Io(WireError::UnexpectedEof)));
}

#[test]
fn c2s_trailing_bytes_are_ignored() {
    let base = frame(&[&[2], &uuid_bytes(SAMPLE)]);
    let longer = frame(&[&base, &[9, 9, 9]]);
    assert_eq!(
        WorldHostC2SMessage::read(ByteCursor::new(base)).unwrap(),
        WorldHostC2SMessage::read(ByteCursor::new(longer)).unwrap()
    );
}

#[test]
fn c2s_read_starts_at_the_cursor() {
    let data = frame(&[&[0xee], &[1], &uuid_bytes(3)]);
    let mut c = ByteCursor::new(data);
    c.read_u8().unwrap();
    assert_eq!(
        WorldHostC2SMessage::read(c).unwrap(),
        WorldHostC2SMessage::IsOnlineTo { connection_id: Uuid(3) }
    );
}

#[test]
fn in_messages() {
    let data = frame(&[&[0], &[0, 0, 0, 1], &uuid_bytes(5)]);
    assert_eq!(
        in_message::read_message(ByteCursor::new(data)).unwrap(),
        WorldHostInMessage::ListOnline { friends: vec![Uuid(5)] }
    );
    let data = frame(&[&[1], &uuid_bytes(6)]);
    assert_eq!(
        in_message::read_message(ByteCursor::new(data)).unwrap(),
        WorldHostInMessage::IsOnlineTo { connection_id: Uuid(6) }
    );
    let data = frame(&[&[2], &uuid_bytes(7)]);
    assert_eq!(
        in_message::read_message(ByteCursor::new(data)).unwrap(),
        WorldHostInMessage::FriendRequest { to_user: Uuid(7) }
    );
    let data = frame(&[&[3], &[0, 0, 0, 2], &uuid_bytes(8), &uuid_bytes(9)]);
    assert_eq!(
        in_message::read_message(ByteCursor::new(data)).unwrap(),
        WorldHostInMessage::WentInGame { friends: vec![Uuid(8), Uuid(9)] }
    );
}

#[test]
fn in_message_errors() {
    let err = in_message::read_message(ByteCursor::new(vec![4])).unwrap_err();
    assert_eq!(err, InReadError::UnknownTypeId(UnknownTypeIdError(4)));
    assert_eq!(err.to_string(), "UnknownTypeIdError(4)");
    assert_eq!(UnknownTypeIdError(123).to_string(), "UnknownTypeIdError(123)");
    let err = in_message::read_message(ByteCursor::new(vec![1, 2])).unwrap_err();
    assert_eq!(err, InReadError::Io(WireError::UnexpectedEof));
    assert_eq!(err.to_string(), "unexpected end of file");
}

#[test]
fn in_trailing_bytes_are_ignored() {
    let data = frame(&[&[2], &uuid_bytes(7), &[0, 1, 2]]);
    assert_eq!(
        in_message::read_message(ByteCursor::new(data)).unwrap(),
        WorldHostInMessage::FriendRequest { to_user: Uuid(7) }
    );
}

#[test]
fn out_message_encodings() {
    assert_eq!(
        WorldHostOutMessage::Error { message: "bad".to_string() }.write(),
        vec![0, b'b', b'a', b'd']
    );
    assert_eq!(
        WorldHostOutMessage::IsOnlineTo { user: Uuid(1), connection_id: Uuid(SAMPLE) }.write(),
        frame(&[&[1], &uuid_bytes(1), &sample_bytes()])
    );
    assert_eq!(
        WorldHostOutMessage::OnlineGame { ip: "10.0.0.1:25565".to_string() }.write(),
        frame(&[&[2], b"10.0.0.1:25565"])
    );
    assert_eq!(
        WorldHostOutMessage::FriendRequest { from_user: "é".to_string() }.write(),
        vec![3, 0xc3, 0xa9]
    );
    assert_eq!(
        WorldHostOutMessage::WentInGame { user: Uuid(SAMPLE) }.write(),
        frame(&[&[4], &sample_bytes()])
    );
}

#[test]
fn s2c_message_encodings() {
    assert_eq!(
        WorldHostS2CMessage::Error { message: "x".to_string() }.write(),
        vec![0, b'x']
    );
    assert_eq!(
        WorldHostS2CMessage::IsOnlineTo { user: Uuid(2), connection_id: Uuid(3) }.write(),
        frame(&[&[1], &uuid_bytes(2), &uuid_bytes(3)])
    );
    assert_eq!(
        WorldHostS2CMessage::FriendRequest { from_user: Uuid(SAMPLE) }.write(),
        frame(&[&[3], &sample_bytes()])
    );
    assert_eq!(
        WorldHostS2CMessage::PublishedWorld { user: Uuid(4) }.write(),
        frame(&[&[4], &uuid_bytes(4)])
    );
    assert_eq!(
        WorldHostS2CMessage::ClosedWorld { user: Uuid(5) }.write(),
        frame(&[&[5], &uuid_bytes(5)])
    );
}
