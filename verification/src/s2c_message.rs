//! Messages from the server to clients, and their encoding.
use vstd::prelude::*;
use vstd::utf8::encode_utf8;
use crate::ids::Uuid;
use crate::out_message::{append_string, append_u8, append_uuid};
use crate::wire::ByteWriter;
use crate::wire::{lemma_uuid_bytes_len, lemma_uuid_read_back, uuid_at, uuid_bytes};

verus! {

/// A message from the server to a client.
#[derive(Debug, PartialEq, Eq)]
pub enum WorldHostS2CMessage {
    /// Something the client sent could not be handled.
    Error { message: String },
    /// A user is online to the client, on this connection.
    IsOnlineTo { user: Uuid, connection_id: Uuid },
    /// A user sent the client a friend request.
    FriendRequest { from_user: Uuid },
    /// A user published a world.
    PublishedWorld { user: Uuid },
    /// A user closed its world.
    ClosedWorld { user: Uuid },
}

/// The mathematical value of a server message.
pub enum S2CMessageView {
    Error { message: Seq<char> },
    IsOnlineTo { user: Uuid, connection_id: Uuid },
    FriendRequest { from_user: Uuid },
    PublishedWorld { user: Uuid },
    ClosedWorld { user: Uuid },
}

impl View for WorldHostS2CMessage {
    type V = S2CMessageView;

    open spec fn view(&self) -> S2CMessageView {
        match self {
            WorldHostS2CMessage::Error { message } => S2CMessageView::Error { message: message@ },
            WorldHostS2CMessage::IsOnlineTo { user, connection_id } => S2CMessageView::IsOnlineTo {
                user: *user,
                connection_id: *connection_id,
            },
            WorldHostS2CMessage::FriendRequest { from_user } => S2CMessageView::FriendRequest {
                from_user: *from_user,
            },
            WorldHostS2CMessage::PublishedWorld { user } => S2CMessageView::PublishedWorld {
                user: *user,
            },
            WorldHostS2CMessage::ClosedWorld { user } => S2CMessageView::ClosedWorld { user: *user },
        }
    }
}

/// The bytes of a server message: a type byte, then the fields, a UUID as sixteen bytes
/// and a string as its UTF-8 bytes with no length before them. The type bytes are 0 for
/// an error, 1 for online-to, 3 for a friend request, 4 for a published world and 5 for
/// a closed world.
pub open spec fn encode_s2c(m: S2CMessageView) -> Seq<u8> {
    match m {
        S2CMessageView::Error { message } => seq![0u8] + encode_utf8(message),
        S2CMessageView::IsOnlineTo { user, connection_id } => seq![1u8] + uuid_bytes(user)
            + uuid_bytes(connection_id),
        S2CMessageView::FriendRequest { from_user } => seq![3u8] + uuid_bytes(from_user),
        S2CMessageView::PublishedWorld { user } => seq![4u8] + uuid_bytes(user),
        S2CMessageView::ClosedWorld { user } => seq![5u8] + uuid_bytes(user),
    }
}

/// What a reader finds in the bytes of a server message: the type byte of the variant
/// (0, 1, 3, 4, 5), each UUID field read back unchanged at its offset, and the error
/// text as its UTF-8 bytes after the type byte.
pub proof fn lemma_s2c_fields_read_back(m: S2CMessageView)
    ensures
        ({
            let b = encode_s2c(m);
            match m {
                S2CMessageView::Error { message } => b.len() >= 1 && b[0] == 0 && b.skip(1)
                    == encode_utf8(message),
                S2CMessageView::IsOnlineTo { user, connection_id } => b.len() == 33 && b[0] == 1
                    && uuid_at(b, 1) == user && uuid_at(b, 17) == connection_id,
                S2CMessageView::FriendRequest { from_user } => b.len() == 17 && b[0] == 3
                    && uuid_at(b, 1) == from_user,
                S2CMessageView::PublishedWorld { user } => b.len() == 17 && b[0] == 4 && uuid_at(
                    b,
                    1,
                ) == user,
                S2CMessageView::ClosedWorld { user } => b.len() == 17 && b[0] == 5 && uuid_at(b, 1)
                    == user,
            }
        }),
{
    let b = encode_s2c(m);
    match m {
        S2CMessageView::Error { message } => {
            assert(b.skip(1) =~= encode_utf8(message));
        },
        S2CMessageView::IsOnlineTo { user, connection_id } => {
            lemma_uuid_bytes_len(user);
            lemma_uuid_bytes_len(connection_id);
            lemma_uuid_read_back(seq![1u8], user, uuid_bytes(connection_id));
            assert(b =~= (seq![1u8] + uuid_bytes(user)) + uuid_bytes(connection_id) + Seq::empty());
            lemma_uuid_read_back(seq![1u8] + uuid_bytes(user), connection_id, Seq::empty());
        },
        S2CMessageView::FriendRequest { from_user } => {
            lemma_uuid_bytes_len(from_user);
            assert(b =~= seq![3u8] + uuid_bytes(from_user) + Seq::empty());
            lemma_uuid_read_back(seq![3u8], from_user, Seq::empty());
        },
        S2CMessageView::PublishedWorld { user } => {
            lemma_uuid_bytes_len(user);
            assert(b =~= seq![4u8] + uuid_bytes(user) + Seq::empty());
            lemma_uuid_read_back(seq![4u8], user, Seq::empty());
        },
        S2CMessageView::ClosedWorld { user } => {
            lemma_uuid_bytes_len(user);
            assert(b =~= seq![5u8] + uuid_bytes(user) + Seq::empty());
            lemma_uuid_read_back(seq![5u8], user, Seq::empty());
        },
    }
}

impl WorldHostS2CMessage {
    /// Encodes the message into the bytes of one binary frame.
    pub fn write(&self) -> (bytes: Vec<u8>)
        ensures
            bytes@ == encode_s2c(self@),
    {
        let mut writer = ByteWriter::new(Vec::with_capacity(16));
        match self {
            WorldHostS2CMessage::Error { message } => {
                append_u8(&mut writer, 0);
                append_string(&mut writer, message.as_str());
            },
            WorldHostS2CMessage::IsOnlineTo { user, connection_id } => {
                append_u8(&mut writer, 1);
                append_uuid(&mut writer, user);
                append_uuid(&mut writer, connection_id);
            },
            WorldHostS2CMessage::FriendRequest { from_user } => {
                append_u8(&mut writer, 3);
                append_uuid(&mut writer, from_user);
            },
            WorldHostS2CMessage::PublishedWorld { user } => {
                append_u8(&mut writer, 4);
                append_uuid(&mut writer, user);
            },
            WorldHostS2CMessage::ClosedWorld { user } => {
                append_u8(&mut writer, 5);
                append_uuid(&mut writer, user);
            },
        }
        let vec: Vec<u8> = writer.into_inner();
        assert(vec@ =~= encode_s2c(self@));
        vec
    }
}

} // verus!
