//! Messages from clients in the earlier, smaller protocol, and their decoding.
use vstd::prelude::*;
use vstd::string::StringExecFns;
use crate::ids::Uuid;
use crate::text::{decimal, push_decimal};
use crate::wire::{
    ByteCursor, WireError, be_u32_at, be_u32_bytes, lemma_be_u32_read_back, lemma_uuid_at_extended,
    lemma_uuid_bytes_len, lemma_uuid_read_back, lemma_uuids_at_extended, lemma_uuids_bytes_len,
    lemma_uuids_read_back, uuid_at, uuid_bytes, uuids_at, uuids_bytes,
};

verus! {

/// The type byte of a message names no message.
#[derive(Clone, Copy, Debug, PartialEq, Eq, Structural)]
pub struct UnknownTypeIdError(pub u8);

impl UnknownTypeIdError {
    /// The text of the error.
    pub open spec fn text(self) -> Seq<char> {
        "UnknownTypeIdError("@ + decimal(self.0 as nat) + ")"@
    }

    /// Renders the error as its text.
    pub fn to_string(&self) -> (s: String)
        ensures
            s@ == self.text(),
    {
        let mut s = String::from_str("UnknownTypeIdError(");
        push_decimal(&mut s, self.0);
        s.append(")");
        s
    }
}

/// Why a message of the earlier protocol could not be decoded.
#[derive(Clone, Copy, Debug, PartialEq, Eq, Structural)]
pub enum InReadError {
    /// The bytes ended too early.
    Io(WireError),
    /// The type byte names no message.
    UnknownTypeId(UnknownTypeIdError),
}

impl InReadError {
    /// The text of the error.
    pub open spec fn text(self) -> Seq<char> {
        match self {
            InReadError::Io(e) => e.text(),
            InReadError::UnknownTypeId(e) => e.text(),
        }
    }

    /// Renders the error as its text.
    pub fn to_string(&self) -> (s: String)
        ensures
            s@ == self.text(),
    {
        match self {
            InReadError::Io(e) => e.to_string(),
            InReadError::UnknownTypeId(e) => e.to_string(),
        }
    }
}

/// A message from a client in the earlier protocol.
#[derive(Debug, PartialEq, Eq)]
pub enum WorldHostInMessage {
    /// Asks to tell these friends that the sender is online.
    ListOnline { friends: Vec<Uuid> },
    /// Tells a connection that the sender is online to it.
    IsOnlineTo { connection_id: Uuid },
    /// Asks to send a friend request to a user.
    FriendRequest { to_user: Uuid },
    /// Tells these friends that the sender went into a game.
    WentInGame { friends: Vec<Uuid> },
}

/// The mathematical value of a message of the earlier protocol.
pub enum InMessageView {
    ListOnline { friends: Seq<Uuid> },
    IsOnlineTo { connection_id: Uuid },
    FriendRequest { to_user: Uuid },
    WentInGame { friends: Seq<Uuid> },
}

impl View for WorldHostInMessage {
    type V = InMessageView;

    open spec fn view(&self) -> InMessageView {
        match self {
            WorldHostInMessage::ListOnline { friends } => InMessageView::ListOnline {
                friends: friends@,
            },
            WorldHostInMessage::IsOnlineTo { connection_id } => InMessageView::IsOnlineTo {
                connection_id: *connection_id,
            },
            WorldHostInMessage::FriendRequest { to_user } => InMessageView::FriendRequest {
                to_user: *to_user,
            },
            WorldHostInMessage::WentInGame { friends } => InMessageView::WentInGame {
                friends: friends@,
            },
        }
    }
}

/// What the bytes `s` of a message of the earlier protocol decode to: a type byte,
/// then a UUID (sixteen bytes) or a list (a big-endian `u32` count and that many UUIDs).
/// Bytes after the message are not read.
pub open spec fn parse_in(s: Seq<u8>) -> Result<InMessageView, InReadError> {
    if s.len() < 1 {
        Err(InReadError::Io(WireError::UnexpectedEof))
    } else {
        let type_id = s[0];
        if type_id == 0 || type_id == 3 {
            if s.len() < 5 || s.len() < 5 + 16 * be_u32_at(s, 1) {
                Err(InReadError::Io(WireError::UnexpectedEof))
            } else {
                let friends = uuids_at(s, 5, be_u32_at(s, 1));
                if type_id == 0 {
                    Ok(InMessageView::ListOnline { friends })
                } else {
                    Ok(InMessageView::WentInGame { friends })
                }
            }
        } else if type_id == 1 || type_id == 2 {
            if s.len() < 17 {
                Err(InReadError::Io(WireError::UnexpectedEof))
            } else if type_id == 1 {
                Ok(InMessageView::IsOnlineTo { connection_id: uuid_at(s, 1) })
            } else {
                Ok(InMessageView::FriendRequest { to_user: uuid_at(s, 1) })
            }
        } else {
            Err(InReadError::UnknownTypeId(UnknownTypeIdError(type_id)))
        }
    }
}

/// The bytes a client sends for a message of the earlier protocol: a type byte (0 to 3
/// in the order of the variants), then a UUID as its sixteen bytes, or a list as its
/// length in four big-endian bytes followed by its UUIDs.
pub open spec fn in_bytes(m: InMessageView) -> Seq<u8> {
    match m {
        InMessageView::ListOnline { friends } => seq![0u8] + be_u32_bytes(friends.len() as u32)
            + uuids_bytes(friends),
        InMessageView::IsOnlineTo { connection_id } => seq![1u8] + uuid_bytes(connection_id),
        InMessageView::FriendRequest { to_user } => seq![2u8] + uuid_bytes(to_user),
        InMessageView::WentInGame { friends } => seq![3u8] + be_u32_bytes(friends.len() as u32)
            + uuids_bytes(friends),
    }
}

/// Every list of the message has a length that four bytes can hold.
pub open spec fn in_lists_fit(m: InMessageView) -> bool {
    match m {
        InMessageView::ListOnline { friends } => friends.len() <= u32::MAX,
        InMessageView::WentInGame { friends } => friends.len() <= u32::MAX,
        _ => true,
    }
}

proof fn lemma_in_list_bytes(t: u8, friends: Seq<Uuid>, rest: Seq<u8>)
    requires
        friends.len() <= u32::MAX,
    ensures
        ({
            let s = seq![t] + be_u32_bytes(friends.len() as u32) + uuids_bytes(friends) + rest;
            &&& s[0] == t
            &&& s.len() >= 5
            &&& be_u32_at(s, 1) == friends.len()
            &&& s.len() >= 5 + 16 * be_u32_at(s, 1)
            &&& uuids_at(s, 5, be_u32_at(s, 1)) == friends
        }),
{
    let n = friends.len() as u32;
    let head = seq![t] + be_u32_bytes(n);
    let s = head + uuids_bytes(friends) + rest;
    lemma_uuids_bytes_len(friends);
    assert(s =~= seq![t] + be_u32_bytes(n) + (uuids_bytes(friends) + rest));
    lemma_be_u32_read_back(seq![t], n, uuids_bytes(friends) + rest);
    lemma_uuids_read_back(head, friends, rest);
}

/// Decoding undoes encoding: the bytes a client sends for any message of the earlier
/// protocol, followed by any bytes, decode to that message, every UUID and every list
/// element unchanged.
pub proof fn lemma_in_round_trip(m: InMessageView, rest: Seq<u8>)
    requires
        in_lists_fit(m),
    ensures
        parse_in(in_bytes(m) + rest) == Ok::<InMessageView, InReadError>(m),
{
    match m {
        InMessageView::ListOnline { friends } => lemma_in_list_bytes(0, friends, rest),
        InMessageView::WentInGame { friends } => lemma_in_list_bytes(3, friends, rest),
        InMessageView::IsOnlineTo { connection_id } => {
            lemma_uuid_bytes_len(connection_id);
            lemma_uuid_read_back(seq![1u8], connection_id, rest);
        },
        InMessageView::FriendRequest { to_user } => {
            lemma_uuid_bytes_len(to_user);
            lemma_uuid_read_back(seq![2u8], to_user, rest);
        },
    }
}

/// A message of the earlier protocol decodes from its own bytes alone: whatever follows
/// it, the bytes `s` decode to the same message, or to the same error, unless `s` ends
/// too early.
pub proof fn lemma_in_trailing_bytes_ignored(s: Seq<u8>, t: Seq<u8>)
    requires
        parse_in(s) != Err::<InMessageView, InReadError>(InReadError::Io(WireError::UnexpectedEof)),
    ensures
        parse_in(s + t) == parse_in(s),
{
    let st = s + t;
    assert(st[0] == s[0]);
    let type_id = s[0];
    if type_id == 0 || type_id == 3 {
        assert(be_u32_at(st, 1) == be_u32_at(s, 1));
        lemma_uuids_at_extended(s, t, 5, be_u32_at(s, 1));
    } else if type_id == 1 || type_id == 2 {
        lemma_uuid_at_extended(s, t, 1);
    }
}

/// Decodes the message of the earlier protocol that starts at the cursor.
pub fn read_message(reader: ByteCursor) -> (res: Result<WorldHostInMessage, InReadError>)
    ensures
        match parse_in(reader.remaining()) {
            Ok(m) => res matches Ok(msg) && msg@ == m,
            Err(e) => res == Err::<WorldHostInMessage, InReadError>(e),
        },
{
    let mut reader = reader;
    let ghost s = reader.remaining();
    let type_id: u8 = match reader.read_u8() {
        Ok(t) => t,
        Err(e) => return Err(InReadError::Io(e)),
    };
    assert(reader.remaining() =~= s.skip(1));
    if type_id == 0 || type_id == 3 {
        let friends: Vec<Uuid> = match reader.read_uuid_list() {
            Ok(v) => v,
            Err(e) => return Err(InReadError::Io(e)),
        };
        assert(friends@ =~= uuids_at(s, 5, be_u32_at(s, 1)));
        if type_id == 0 {
            Ok(WorldHostInMessage::ListOnline { friends })
        } else {
            Ok(WorldHostInMessage::WentInGame { friends })
        }
    } else if type_id == 1 || type_id == 2 {
        let id: Uuid = match read_uuid(&mut reader) {
            Ok(u) => u,
            Err(e) => return Err(e),
        };
        assert(uuid_at(s.skip(1), 0) == uuid_at(s, 1));
        if type_id == 1 {
            Ok(WorldHostInMessage::IsOnlineTo { connection_id: id })
        } else {
            Ok(WorldHostInMessage::FriendRequest { to_user: id })
        }
    } else {
        Err(InReadError::UnknownTypeId(UnknownTypeIdError(type_id)))
    }
}

/// Reads a UUID as two big-endian `u64`, upper half first. When fewer than sixteen
/// bytes are left, the read fails and the cursor moves to its end position.
pub fn read_uuid(reader: &mut ByteCursor) -> (res: Result<Uuid, InReadError>)
    ensures
        final(reader).bytes() == old(reader).bytes(),
        old(reader).remaining().len() >= 16 ==> {
            &&& res == Ok::<Uuid, InReadError>(uuid_at(old(reader).remaining(), 0))
            &&& final(reader).position() == old(reader).position() + 16
            &&& final(reader).remaining() == old(reader).remaining().skip(16)
        },
        old(reader).remaining().len() < 16 ==> {
            &&& res == Err::<Uuid, InReadError>(InReadError::Io(WireError::UnexpectedEof))
            &&& final(reader).position() == old(reader).end_position()
        },
{
    match reader.read_uuid() {
        Ok(u) => Ok(u),
        Err(e) => Err(InReadError::Io(e)),
    }
}

} // verus!
