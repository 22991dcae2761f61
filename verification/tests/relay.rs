use world_host_server::config::ServerConfig;
use world_host_server::connection::{
    accept_handshake, handle_message, open_connection, Connection, ConnectionState,
    ConnectionsSetSync, Dispatch, HandshakeError,
};
use world_host_server::ids::Uuid;
use world_host_server::s2c_message::WorldHostS2CMessage;

fn uuid_bytes(value: u128) -> Vec<u8> {
    value.to_be_bytes().to_vec()
}

fn frame(parts: &[&[u8]]) -> Vec<u8> {
    let mut out = Vec::new();
    for p in parts {
        out.extend_from_slice(p);
    }
    out
}

fn conn(id: u128, user: u128) -> Connection {
    Connection { id: Uuid(id), user_uuid: Uuid(user), state: ConnectionState::Closed }
}

/// Users 100 and 200; user 100 has connections 1 and 2, user 200 has connection 3.
fn registry() -> ConnectionsSetSync<&'static str> {
    let mut set = ConnectionsSetSync::new();
    set.add(Uuid(1), Uuid(100), "one");
    set.add(Uuid(2), Uuid(100), "two");
    set.add(Uuid(3), Uuid(200), "three");
    set
}

#[test]
fn registry_lookups() {
    let set = registry();
    assert_eq!(set.by_id(&Uuid(2)), Some(&"two"));
    assert_eq!(set.by_id(&Uuid(9)), None);
    assert_eq!(set.by_user_id(&Uuid(100)), Some(&vec![Uuid(1), Uuid(2)]));
    assert_eq!(set.by_user_id(&Uuid(200)), Some(&vec![Uuid(3)]));
    assert_eq!(set.by_user_id(&Uuid(300)), None);
}

#[test]
fn registry_readding_an_id() {
    let mut set = registry();
    set.add(Uuid(1), Uuid(100), "again");
    assert_eq!(set.by_id(&Uuid(1)), Some(&"again"));
    assert_eq!(set.by_user_id(&Uuid(100)), Some(&vec![Uuid(1), Uuid(2), Uuid(1)]));
}

#[test]
fn registry_lists_each_user_in_add_order() {
    let mut set = ConnectionsSetSync::new();
    set.add(Uuid(5), Uuid(100), 'a');
    set.add(Uuid(6), Uuid(200), 'b');
    set.add(Uuid(7), Uuid(100), 'c');
    set.add(Uuid(8), Uuid(100), 'd');
    assert_eq!(set.by_user_id(&Uuid(100)), Some(&vec![Uuid(5), Uuid(7), Uuid(8)]));
    assert_eq!(set.by_user_id(&Uuid(200)), Some(&vec![Uuid(6)]));
    assert_eq!(set.by_user_id(&Uuid(5)), None);
    for (id, c) in [(5, 'a'), (6, 'b'), (7, 'c'), (8, 'd')] {
        assert_eq!(set.by_id(&Uuid(id)), Some(&c));
    }
    assert_eq!(set.by_id(&Uuid(100)), None);
}

#[test]
fn empty_registry() {
    let set: ConnectionsSetSync<u8> = ConnectionsSetSync::new();
    assert_eq!(set.by_id(&Uuid(1)), None);
    assert_eq!(set.by_user_id(&Uuid(1)), None);
}

#[test]
fn handshake_outcomes() {
    assert_eq!(accept_handshake(Uuid(5), false, uuid_bytes(100)), Err(HandshakeError::NotBinary));
    assert_eq!(accept_handshake(Uuid(5), true, vec![1, 2, 3]), Err(HandshakeError::InvalidUuid));
    assert_eq!(
        accept_handshake(Uuid(5), true, frame(&[&uuid_bytes(100), &[7]])),
        Ok(conn(5, 100))
    );
    assert_eq!(HandshakeError::NotBinary.reason(), "Invalid handshake: not binary.");
    assert_eq!(
        HandshakeError::InvalidUuid.reason(),
        "Invalid handshake: failed to read UUID."
    );
}

#[test]
fn open_connection_draws_a_version_four_id() {
    let c = open_connection(true, uuid_bytes(100)).unwrap();
    assert_eq!(c.user_uuid, Uuid(100));
    assert_eq!(c.state, ConnectionState::Closed);
    assert_eq!((c.id.0 >> 76) & 0xf, 4);
    assert_eq!((c.id.0 >> 62) & 0x3, 2);
    assert_eq!(open_connection(false, uuid_bytes(100)), Err(HandshakeError::NotBinary));
}

#[test]
fn list_online_reaches_each_friend_connection() {
    let set = registry();
    let data = frame(&[&[0], &[0, 0, 0, 3], &uuid_bytes(200), &uuid_bytes(999), &uuid_bytes(100)]);
    let d = handle_message(&set, &conn(7, 300), true, data);
    assert_eq!(
        d,
        Dispatch::Forward {
            targets: vec![Uuid(3), Uuid(1), Uuid(2)],
            message: WorldHostS2CMessage::IsOnlineTo { user: Uuid(300), connection_id: Uuid(7) },
        }
    );
}

#[test]
fn is_online_to_reaches_a_registered_connection_only() {
    let set = registry();
    let d = handle_message(&set, &conn(7, 300), true, frame(&[&[1], &uuid_bytes(2)]));
    assert_eq!(
        d,
        Dispatch::Forward {
            targets: vec![Uuid(2)],
            message: WorldHostS2CMessage::PublishedWorld { user: Uuid(300) },
        }
    );
    let d = handle_message(&set, &conn(7, 300), true, frame(&[&[1], &uuid_bytes(42)]));
    assert_eq!(
        d,
        Dispatch::Forward {
            targets: vec![],
            message: WorldHostS2CMessage::PublishedWorld { user: Uuid(300) },
        }
    );
}

#[test]
fn friend_request_reaches_the_user() {
    let set = registry();
    let d = handle_message(&set, &conn(7, 300), true, frame(&[&[2], &uuid_bytes(100)]));
    assert_eq!(
        d,
        Dispatch::Forward {
            targets: vec![Uuid(1), Uuid(2)],
            message: WorldHostS2CMessage::FriendRequest { from_user: Uuid(300) },
        }
    );
}

#[test]
fn world_published_and_closed() {
    let set = registry();
    let data = frame(&[&[3], &[0, 0, 0, 2], &uuid_bytes(200), &uuid_bytes(200)]);
    assert_eq!(
        handle_message(&set, &conn(7, 300), true, data),
        Dispatch::Forward {
            targets: vec![Uuid(3), Uuid(3)],
            message: WorldHostS2CMessage::PublishedWorld { user: Uuid(300) },
        }
    );
    let data = frame(&[&[4], &[0, 0, 0, 1], &uuid_bytes(100)]);
    assert_eq!(
        handle_message(&set, &conn(7, 300), true, data),
        Dispatch::Forward {
            targets: vec![Uuid(1), Uuid(2)],
            message: WorldHostS2CMessage::ClosedWorld { user: Uuid(300) },
        }
    );
}

#[test]
fn undecodable_frames_get_an_error_reply() {
    let set = registry();
    assert_eq!(
        handle_message(&set, &conn(7, 300), true, vec![9]),
        Dispatch::Reply(WorldHostS2CMessage::Error {
            message: "Received packet with unknown type_id from client: 9".to_string()
        })
    );
    assert_eq!(
        handle_message(&set, &conn(7, 300), true, vec![]),
        Dispatch::Reply(WorldHostS2CMessage::Error {
            message: "unexpected end of file".to_string()
        })
    );
}

#[test]
fn other_frames_are_ignored() {
    let set = registry();
    assert_eq!(handle_message(&set, &conn(7, 300), false, vec![2]), Dispatch::Ignore);
    assert_eq!(
        handle_message(&set, &conn(7, 300), true, frame(&[&[5], &uuid_bytes(100)])),
        Dispatch::Ignore
    );
    assert_eq!(
        handle_message(&set, &conn(7, 300), true, frame(&[&[6], &uuid_bytes(1), &[1]])),
        Dispatch::Ignore
    );
}

#[test]
fn default_config() {
    let c = ServerConfig::default();
    assert_eq!(c.addr, "0.0.0.0:9646");
    assert_eq!(c.base_ip, "");
    assert_eq!(c.java_port, 25565);
}
