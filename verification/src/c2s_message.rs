//! Messages from clients to the server, and their decoding.
use vstd::prelude::*;
use vstd::string::StringExecFns;
use crate::connection::JoinType;
use crate::ids::Uuid;
use crate::text::{decimal, push_decimal};
use crate::wire::{
    ByteCursor, WireError, be_u16_at, be_u16_bytes, be_u32_at, be_u32_bytes,
    lemma_be_u16_read_back, lemma_be_u32_read_back, lemma_uuid_at_extended, lemma_uuid_bytes_len,
    lemma_uuid_read_back, lemma_uuids_at_extended, lemma_uuids_bytes_len, lemma_uuids_read_back,
    uuid_at, uuid_bytes, uuids_at, uuids_bytes,
};

verus! {

/// An error in a client message whose bytes were all there: an identifier that names
/// no message or no join type.
#[derive(Debug, PartialEq, Eq)]
pub struct PresentMessageError(String);

impl PresentMessageError {
    /// The text of the error.
    pub closed spec fn text(&self) -> Seq<char> {
        self.0@
    }

    /// Renders the error as its text.
    pub fn to_string(&self) -> (s: String)
        ensures
            s@ == self.text(),
    {
        self.0.clone()
    }
}

/// The text of the error for a message whose type byte names no message.
pub open spec fn unknown_type_id_text(type_id: u8) -> Seq<char> {
    "Received packet with unknown type_id from client: "@ + decimal(type_id as nat)
}

/// The text of the error for a join grant whose join-type byte names no join type.
pub open spec fn unknown_join_type_id_text(join_type_id: u8) -> Seq<char> {
    "Received packet with unknown join_type_id from client: "@ + decimal(join_type_id as nat)
}

fn unknown_type_id_error(type_id: u8) -> (e: PresentMessageError)
    ensures
        e.text() == unknown_type_id_text(type_id),
{
    let mut s = String::from_str("Received packet with unknown type_id from client: ");
    push_decimal(&mut s, type_id);
    PresentMessageError(s)
}

fn unknown_join_type_id_error(join_type_id: u8) -> (e: PresentMessageError)
    ensures
        e.text() == unknown_join_type_id_text(join_type_id),
{
    let mut s = String::from_str("Received packet with unknown join_type_id from client: ");
    push_decimal(&mut s, join_type_id);
    PresentMessageError(s)
}

/// Why a client message could not be decoded.
#[derive(Debug, PartialEq, Eq)]
pub enum C2SReadError {
    /// The bytes ended too early.
    Io(WireError),
    /// An identifier in the message names nothing.
    Present(PresentMessageError),
}

impl C2SReadError {
    /// The text of the error.
    pub open spec fn text(&self) -> Seq<char> {
        match self {
            C2SReadError::Io(e) => e.text(),
            C2SReadError::Present(p) => p.text(),
        }
    }

    /// Renders the error as its text.
    pub fn to_string(&self) -> (s: String)
        ensures
            s@ == self.text(),
    {
        match self {
            C2SReadError::Io(e) => e.to_string(),
            C2SReadError::Present(p) => p.to_string(),
        }
    }
}

/// A message from a client to the server.
#[derive(Debug, PartialEq, Eq)]
pub enum WorldHostC2SMessage {
    /// Asks to tell these friends that the sender is online.
    ListOnline { friends: Vec<Uuid> },
    /// Tells a connection that the sender is online to it.
    IsOnlineTo { connection_id: Uuid },
    /// Asks to send a friend request to a user.
    FriendRequest { to_user: Uuid },
    /// Tells these friends that the sender published a world.
    PublishedWorld { friends: Vec<Uuid> },
    /// Tells these friends that the sender closed its world.
    ClosedWorld { friends: Vec<Uuid> },
    /// Asks a friend to let the sender join.
    RequestJoin { friend: Uuid },
    /// Lets a connection join, and says how.
    JoinGranted { connection_id: Uuid, join_type: JoinType },
}

/// The mathematical value of a client message: its lists as sequences.
pub enum C2SMessageView {
    ListOnline { friends: Seq<Uuid> },
    IsOnlineTo { connection_id: Uuid },
    FriendRequest { to_user: Uuid },
    PublishedWorld { friends: Seq<Uuid> },
    ClosedWorld { friends: Seq<Uuid> },
    RequestJoin { friend: Uuid },
    JoinGranted { connection_id: Uuid, join_type: JoinType },
}

impl View for WorldHostC2SMessage {
    type V = C2SMessageView;

    open spec fn view(&self) -> C2SMessageView {
        match self {
            WorldHostC2SMessage::ListOnline { friends } => C2SMessageView::ListOnline {
                friends: friends@,
            },
            WorldHostC2SMessage::IsOnlineTo { connection_id } => C2SMessageView::IsOnlineTo {
                connection_id: *connection_id,
            },
            WorldHostC2SMessage::FriendRequest { to_user } => C2SMessageView::FriendRequest {
                to_user: *to_user,
            },
            WorldHostC2SMessage::PublishedWorld { friends } => C2SMessageView::PublishedWorld {
                friends: friends@,
            },
            WorldHostC2SMessage::ClosedWorld { friends } => C2SMessageView::ClosedWorld {
                friends: friends@,
            },
            WorldHostC2SMessage::RequestJoin { friend } => C2SMessageView::RequestJoin {
                friend: *friend,
            },
            WorldHostC2SMessage::JoinGranted { connection_id, join_type } =>
                C2SMessageView::JoinGranted { connection_id: *connection_id, join_type: *join_type },
        }
    }
}

/// Why the bytes of a client message decode to no message.
pub enum C2SFailure {
    /// The bytes end too early.
    UnexpectedEof,
    /// The type byte names no message.
    UnknownTypeId(u8),
    /// The join-type byte of a join grant names no join type.
    UnknownJoinTypeId(u8),
}

/// What the bytes `s` of a client message decode to. A message is a type byte and its
/// fields: a UUID is sixteen bytes, a list is a big-endian `u32` count and that many
/// UUIDs, a join type is a byte (0 for UPnP, followed by a big-endian `u16` port, or 1
/// for the proxy). Bytes after the message are not read.
pub open spec fn parse_c2s(s: Seq<u8>) -> Result<C2SMessageView, C2SFailure> {
    if s.len() < 1 {
        Err(C2SFailure::UnexpectedEof)
    } else {
        let type_id = s[0];
        if type_id == 0 || type_id == 3 || type_id == 4 {
            if s.len() < 5 || s.len() < 5 + 16 * be_u32_at(s, 1) {
                Err(C2SFailure::UnexpectedEof)
            } else {
                let friends = uuids_at(s, 5, be_u32_at(s, 1));
                if type_id == 0 {
                    Ok(C2SMessageView::ListOnline { friends })
                } else if type_id == 3 {
                    Ok(C2SMessageView::PublishedWorld { friends })
                } else {
                    Ok(C2SMessageView::ClosedWorld { friends })
                }
            }
        } else if type_id == 1 || type_id == 2 || type_id == 5 {
            if s.len() < 17 {
                Err(C2SFailure::UnexpectedEof)
            } else {
                let id = uuid_at(s, 1);
                if type_id == 1 {
                    Ok(C2SMessageView::IsOnlineTo { connection_id: id })
                } else if type_id == 2 {
                    Ok(C2SMessageView::FriendRequest { to_user: id })
                } else {
                    Ok(C2SMessageView::RequestJoin { friend: id })
                }
            }
        } else if type_id == 6 {
            if s.len() < 18 {
                Err(C2SFailure::UnexpectedEof)
            } else if s[17] == 0 {
                if s.len() < 20 {
                    Err(C2SFailure::UnexpectedEof)
                } else {
                    Ok(
                        C2SMessageView::JoinGranted {
                            connection_id: uuid_at(s, 1),
                            join_type: JoinType::UPnP { port: be_u16_at(s, 18) as u16 },
                        },
                    )
                }
            } else if s[17] == 1 {
                Ok(
                    C2SMessageView::JoinGranted {
                        connection_id: uuid_at(s, 1),
                        join_type: JoinType::Proxy,
                    },
                )
            } else {
                Err(C2SFailure::UnknownJoinTypeId(s[17]))
            }
        } else {
            Err(C2SFailure::UnknownTypeId(type_id))
        }
    }
}

/// The bytes a client sends for a message: a type byte (0 to 6 in the order of the
/// variants), then the fields in order, each UUID as its sixteen bytes, each list as its
/// length in four big-endian bytes followed by its UUIDs, and a join type as 0 and the
/// port in two big-endian bytes, or as 1.
pub open spec fn c2s_bytes(m: C2SMessageView) -> Seq<u8> {
    match m {
        C2SMessageView::ListOnline { friends } => seq![0u8] + be_u32_bytes(friends.len() as u32)
            + uuids_bytes(friends),
        C2SMessageView::IsOnlineTo { connection_id } => seq![1u8] + uuid_bytes(connection_id),
        C2SMessageView::FriendRequest { to_user } => seq![2u8] + uuid_bytes(to_user),
        C2SMessageView::PublishedWorld { friends } => seq![3u8] + be_u32_bytes(
            friends.len() as u32,
        ) + uuids_bytes(friends),
        C2SMessageView::ClosedWorld { friends } => seq![4u8] + be_u32_bytes(friends.len() as u32)
            + uuids_bytes(friends),
        C2SMessageView::RequestJoin { friend } => seq![5u8] + uuid_bytes(friend),
        C2SMessageView::JoinGranted { connection_id, join_type } => match join_type {
            JoinType::UPnP { port } => seq![6u8] + uuid_bytes(connection_id) + seq![0u8]
                + be_u16_bytes(port),
            JoinType::Proxy => seq![6u8] + uuid_bytes(connection_id) + seq![1u8],
        },
    }
}

/// Every list of the message has a length that four bytes can hold.
pub open spec fn c2s_lists_fit(m: C2SMessageView) -> bool {
    match m {
        C2SMessageView::ListOnline { friends } => friends.len() <= u32::MAX,
        C2SMessageView::PublishedWorld { friends } => friends.len() <= u32::MAX,
        C2SMessageView::ClosedWorld { friends } => friends.len() <= u32::MAX,
        _ => true,
    }
}

proof fn lemma_c2s_list_round_trip(t: u8, friends: Seq<Uuid>, rest: Seq<u8>)
    requires
        friends.len() <= u32::MAX,
    ensures
        ({
            let s = seq![t] + be_u32_bytes(friends.len() as u32) + uuids_bytes(friends) + rest;
            &&& s[0] == t
            &&& s.len() >= 5
            &&& be_u32_at(s, 1) == friends.len()
            &&& s.len() >= 5 + 16 * be_u32_at(s, 1)
            &&& uuids_at(s, 5, be_u32_at(s, 1)) == friends
        }),
{
    let n = friends.len() as u32;
    let head = seq![t] + be_u32_bytes(n);
    let s = head + uuids_bytes(friends) + rest;
    lemma_uuids_bytes_len(friends);
    assert(s =~= seq![t] + be_u32_bytes(n) + (uuids_bytes(friends) + rest));
    lemma_be_u32_read_back(seq![t], n, uuids_bytes(friends) + rest);
    lemma_uuids_read_back(head, friends, rest);
}

proof fn lemma_c2s_uuid_round_trip(t: u8, u: Uuid, rest: Seq<u8>)
    ensures
        ({
            let s = seq![t] + uuid_bytes(u) + rest;
            &&& s[0] == t
            &&& s.len() >= 17
            &&& uuid_at(s, 1) == u
        }),
{
    lemma_uuid_bytes_len(u);
    lemma_uuid_read_back(seq![t], u, rest);
}

/// Decoding undoes encoding: the bytes a client sends for any message, followed by any
/// bytes, decode to that message, every UUID and every list element unchanged.
pub proof fn lemma_c2s_round_trip(m: C2SMessageView, rest: Seq<u8>)
    requires
        c2s_lists_fit(m),
    ensures
        parse_c2s(c2s_bytes(m) + rest) == Ok::<C2SMessageView, C2SFailure>(m),
{
    match m {
        C2SMessageView::ListOnline { friends } => lemma_c2s_list_round_trip(0, friends, rest),
        C2SMessageView::PublishedWorld { friends } => lemma_c2s_list_round_trip(3, friends, rest),
        C2SMessageView::ClosedWorld { friends } => lemma_c2s_list_round_trip(4, friends, rest),
        C2SMessageView::IsOnlineTo { connection_id } => lemma_c2s_uuid_round_trip(
            1,
            connection_id,
            rest,
        ),
        C2SMessageView::FriendRequest { to_user } => lemma_c2s_uuid_round_trip(2, to_user, rest),
        C2SMessageView::RequestJoin { friend } => lemma_c2s_uuid_round_trip(5, friend, rest),
        C2SMessageView::JoinGranted { connection_id, join_type } => {
            lemma_uuid_bytes_len(connection_id);
            match join_type {
                JoinType::UPnP { port } => {
                    let tail = seq![0u8] + be_u16_bytes(port) + rest;
                    let s = seq![6u8] + uuid_bytes(connection_id) + seq![0u8] + be_u16_bytes(port)
                        + rest;
                    assert(s =~= seq![6u8] + uuid_bytes(connection_id) + tail);
                    lemma_uuid_read_back(seq![6u8], connection_id, tail);
                    let head = seq![6u8] + uuid_bytes(connection_id) + seq![0u8];
                    assert(s =~= head + be_u16_bytes(port) + rest);
                    lemma_be_u16_read_back(head, port, rest);
                    assert(s[17] == 0);
                },
                JoinType::Proxy => {
                    let tail = seq![1u8] + rest;
                    let s = seq![6u8] + uuid_bytes(connection_id) + seq![1u8] + rest;
                    assert(s =~= seq![6u8] + uuid_bytes(connection_id) + tail);
                    lemma_uuid_read_back(seq![6u8], connection_id, tail);
                    assert(s[17] == 1);
                },
            }
        },
    }
}

/// A client message decodes from its own bytes alone: whatever follows it, the bytes
/// `s` decode to the same message, or to the same error, unless `s` ends too early.
pub proof fn lemma_c2s_trailing_bytes_ignored(s: Seq<u8>, t: Seq<u8>)
    requires
        !(parse_c2s(s) matches Err(C2SFailure::UnexpectedEof)),
    ensures
        parse_c2s(s + t) == parse_c2s(s),
{
    let st = s + t;
    assert(st[0] == s[0]);
    let type_id = s[0];
    if type_id == 0 || type_id == 3 || type_id == 4 {
        assert(be_u32_at(st, 1) == be_u32_at(s, 1));
        lemma_uuids_at_extended(s, t, 5, be_u32_at(s, 1));
    } else if type_id == 1 || type_id == 2 || type_id == 5 {
        lemma_uuid_at_extended(s, t, 1);
    } else if type_id == 6 {
        lemma_uuid_at_extended(s, t, 1);
        assert(st[17] == s[17]);
        if s[17] == 0 {
            assert(be_u16_at(st, 18) == be_u16_at(s, 18));
        }
    }
}

/// The error `e` reports the failure `f`.
pub open spec fn reports(e: C2SReadError, f: C2SFailure) -> bool {
    match f {
        C2SFailure::UnexpectedEof => e matches C2SReadError::Io(WireError::UnexpectedEof),
        C2SFailure::UnknownTypeId(t) => e matches C2SReadError::Present(p) && p.text()
            == unknown_type_id_text(t),
        C2SFailure::UnknownJoinTypeId(j) => e matches C2SReadError::Present(p) && p.text()
            == unknown_join_type_id_text(j),
    }
}

/// The text of the error that reports a failure.
pub open spec fn failure_text(f: C2SFailure) -> Seq<char> {
    match f {
        C2SFailure::UnexpectedEof => WireError::UnexpectedEof.text(),
        C2SFailure::UnknownTypeId(t) => unknown_type_id_text(t),
        C2SFailure::UnknownJoinTypeId(j) => unknown_join_type_id_text(j),
    }
}

/// `res` is what decoding the bytes `s` gives.
pub open spec fn decodes_to(s: Seq<u8>, res: Result<WorldHostC2SMessage, C2SReadError>) -> bool {
    match parse_c2s(s) {
        Ok(m) => res matches Ok(msg) && msg@ == m,
        Err(f) => res matches Err(e) && reports(e, f),
    }
}

impl WorldHostC2SMessage {
    /// Decodes the message that starts at the cursor.
    pub fn read(reader: ByteCursor) -> (res: Result<WorldHostC2SMessage, C2SReadError>)
        ensures
            decodes_to(reader.remaining(), res),
            res matches Err(e) ==> parse_c2s(reader.remaining()) matches Err(f) && e.text()
                == failure_text(f),
    {
        let mut reader = reader;
        let ghost s = reader.remaining();
        let type_id: u8 = match reader.read_u8() {
            Ok(t) => t,
            Err(e) => return Err(C2SReadError::Io(e)),
        };
        assert(reader.remaining() =~= s.skip(1));
        if type_id == 0 || type_id == 3 || type_id == 4 {
            let friends: Vec<Uuid> = match reader.read_uuid_list() {
                Ok(v) => v,
                Err(e) => return Err(C2SReadError::Io(e)),
            };
            assert(friends@ =~= uuids_at(s, 5, be_u32_at(s, 1)));
            if type_id == 0 {
                Ok(WorldHostC2SMessage::ListOnline { friends })
            } else if type_id == 3 {
                Ok(WorldHostC2SMessage::PublishedWorld { friends })
            } else {
                Ok(WorldHostC2SMessage::ClosedWorld { friends })
            }
        } else if type_id == 1 || type_id == 2 || type_id == 5 {
            let id: Uuid = match read_uuid(&mut reader) {
                Ok(u) => u,
                Err(e) => return Err(e),
            };
            assert(uuid_at(s.skip(1), 0) == uuid_at(s, 1));
            if type_id == 1 {
                Ok(WorldHostC2SMessage::IsOnlineTo { connection_id: id })
            } else if type_id == 2 {
                Ok(WorldHostC2SMessage::FriendRequest { to_user: id })
            } else {
                Ok(WorldHostC2SMessage::RequestJoin { friend: id })
            }
        } else if type_id == 6 {
            let connection_id: Uuid = match read_uuid(&mut reader) {
                Ok(u) => u,
                Err(e) => return Err(e),
            };
            assert(uuid_at(s.skip(1), 0) == uuid_at(s, 1));
            assert(reader.remaining() =~= s.skip(17));
            let join_type_id: u8 = match reader.read_u8() {
                Ok(j) => j,
                Err(e) => return Err(C2SReadError::Io(e)),
            };
            if join_type_id == 0 {
                assert(reader.remaining() =~= s.skip(18));
                let port: u16 = match reader.read_u16() {
                    Ok(p) => p,
                    Err(e) => return Err(C2SReadError::Io(e)),
                };
                Ok(
                    WorldHostC2SMessage::JoinGranted {
                        connection_id,
                        join_type: JoinType::UPnP { port },
                    },
                )
            } else if join_type_id == 1 {
                Ok(WorldHostC2SMessage::JoinGranted { connection_id, join_type: JoinType::Proxy })
            } else {
                Err(C2SReadError::Present(unknown_join_type_id_error(join_type_id)))
            }
        } else {
            Err(C2SReadError::Present(unknown_type_id_error(type_id)))
        }
    }
}

/// Reads a UUID as two big-endian `u64`, upper half first. When fewer than sixteen
/// bytes are left, the read fails and the cursor moves to its end position.
pub fn read_uuid(reader: &mut ByteCursor) -> (res: Result<Uuid, C2SReadError>)
    ensures
        final(reader).bytes() == old(reader).bytes(),
        old(reader).remaining().len() >= 16 ==> {
            &&& res matches Ok(u) && u == uuid_at(old(reader).remaining(), 0)
            &&& final(reader).position() == old(reader).position() + 16
            &&& final(reader).remaining() == old(reader).remaining().skip(16)
        },
        old(reader).remaining().len() < 16 ==> {
            &&& res matches Err(C2SReadError::Io(WireError::UnexpectedEof))
            &&& final(reader).position() == old(reader).end_position()
        },
{
    match reader.read_uuid() {
        Ok(u) => Ok(u),
        Err(e) => Err(C2SReadError::Io(e)),
    }
}

} // verus!
