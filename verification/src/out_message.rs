//! Messages from the server to clients in the earlier, smaller protocol, and their
//! encoding.
use vstd::prelude::*;
use vstd::string::StringSliceAdditionalSpecFns;
use vstd::utf8::encode_utf8;
use crate::ids::{Uuid, uuid_u64_pair};
use crate::wire::{
    ByteWriter, be_u64_bytes, lemma_uuid_bytes_halves, lemma_be_u64_round_trip,
    lemma_uuid_bytes_len, lemma_uuid_read_back, uuid_at, lemma_spliced_at_end, lemma_spliced_concat, spliced, uuid_bytes,
};

verus! {

/// A message from the server to a client in the earlier protocol.
#[derive(Debug, PartialEq, Eq)]
pub enum WorldHostOutMessage {
    /// Something the client sent could not be handled.
    Error { message: String },
    /// A user is online to the client, on this connection.
    IsOnlineTo { user: Uuid, connection_id: Uuid },
    /// A game can be joined at this address.
    OnlineGame { ip: String },
    /// A user sent the client a friend request.
    FriendRequest { from_user: String },
    /// A user went into a game.
    WentInGame { user: Uuid },
}

/// The mathematical value of a server message of the earlier protocol.
pub enum OutMessageView {
    Error { message: Seq<char> },
    IsOnlineTo { user: Uuid, connection_id: Uuid },
    OnlineGame { ip: Seq<char> },
    FriendRequest { from_user: Seq<char> },
    WentInGame { user: Uuid },
}

impl View for WorldHostOutMessage {
    type V = OutMessageView;

    open spec fn view(&self) -> OutMessageView {
        match self {
            WorldHostOutMessage::Error { message } => OutMessageView::Error { message: message@ },
            WorldHostOutMessage::IsOnlineTo { user, connection_id } => OutMessageView::IsOnlineTo {
                user: *user,
                connection_id: *connection_id,
            },
            WorldHostOutMessage::OnlineGame { ip } => OutMessageView::OnlineGame { ip: ip@ },
            WorldHostOutMessage::FriendRequest { from_user } => OutMessageView::FriendRequest {
                from_user: from_user@,
            },
            WorldHostOutMessage::WentInGame { user } => OutMessageView::WentInGame { user: *user },
        }
    }
}

/// The bytes of a server message of the earlier protocol: a type byte (0 to 4 in the
/// order of the variants), then the fields, a UUID as sixteen bytes and a string as its
/// UTF-8 bytes with no length before them.
pub open spec fn encode_out(m: OutMessageView) -> Seq<u8> {
    match m {
        OutMessageView::Error { message } => seq![0u8] + encode_utf8(message),
        OutMessageView::IsOnlineTo { user, connection_id } => seq![1u8] + uuid_bytes(user)
            + uuid_bytes(connection_id),
        OutMessageView::OnlineGame { ip } => seq![2u8] + encode_utf8(ip),
        OutMessageView::FriendRequest { from_user } => seq![3u8] + encode_utf8(from_user),
        OutMessageView::WentInGame { user } => seq![4u8] + uuid_bytes(user),
    }
}

/// What a reader finds in the bytes of a server message of the earlier protocol: the
/// type byte of the variant (0 to 4 in their order), each UUID field read back unchanged
/// at its offset, and each string field as its UTF-8 bytes after the type byte.
pub proof fn lemma_out_fields_read_back(m: OutMessageView)
    ensures
        ({
            let b = encode_out(m);
            match m {
                OutMessageView::Error { message } => b.len() >= 1 && b[0] == 0 && b.skip(1)
                    == encode_utf8(message),
                OutMessageView::IsOnlineTo { user, connection_id } => b.len() == 33 && b[0] == 1
                    && uuid_at(b, 1) == user && uuid_at(b, 17) == connection_id,
                OutMessageView::OnlineGame { ip } => b.len() >= 1 && b[0] == 2 && b.skip(1)
                    == encode_utf8(ip),
                OutMessageView::FriendRequest { from_user } => b.len() >= 1 && b[0] == 3 && b.skip(
                    1,
                ) == encode_utf8(from_user),
                OutMessageView::WentInGame { user } => b.len() == 17 && b[0] == 4 && uuid_at(b, 1)
                    == user,
            }
        }),
{
    let b = encode_out(m);
    match m {
        OutMessageView::Error { message } => {
            assert(b.skip(1) =~= encode_utf8(message));
        },
        OutMessageView::OnlineGame { ip } => {
            assert(b.skip(1) =~= encode_utf8(ip));
        },
        OutMessageView::FriendRequest { from_user } => {
            assert(b.skip(1) =~= encode_utf8(from_user));
        },
        OutMessageView::IsOnlineTo { user, connection_id } => {
            lemma_uuid_bytes_len(user);
            lemma_uuid_bytes_len(connection_id);
            lemma_uuid_read_back(seq![1u8], user, uuid_bytes(connection_id));
            assert(b =~= (seq![1u8] + uuid_bytes(user)) + uuid_bytes(connection_id) + Seq::empty());
            lemma_uuid_read_back(seq![1u8] + uuid_bytes(user), connection_id, Seq::empty());
        },
        OutMessageView::WentInGame { user } => {
            lemma_uuid_bytes_len(user);
            assert(b =~= seq![4u8] + uuid_bytes(user) + Seq::empty());
            lemma_uuid_read_back(seq![4u8], user, Seq::empty());
        },
    }
}

impl WorldHostOutMessage {
    /// Encodes the message into the bytes of one binary frame.
    pub fn write(&self) -> (bytes: Vec<u8>)
        ensures
            bytes@ == encode_out(self@),
    {
        let mut writer = ByteWriter::new(Vec::with_capacity(16));
        match self {
            WorldHostOutMessage::Error { message } => {
                append_u8(&mut writer, 0);
                append_string(&mut writer, message.as_str());
            },
            WorldHostOutMessage::IsOnlineTo { user, connection_id } => {
                append_u8(&mut writer, 1);
                append_uuid(&mut writer, user);
                append_uuid(&mut writer, connection_id);
            },
            WorldHostOutMessage::OnlineGame { ip } => {
                append_u8(&mut writer, 2);
                append_string(&mut writer, ip.as_str());
            },
            WorldHostOutMessage::FriendRequest { from_user } => {
                append_u8(&mut writer, 3);
                append_string(&mut writer, from_user.as_str());
            },
            WorldHostOutMessage::WentInGame { user } => {
                append_u8(&mut writer, 4);
                append_uuid(&mut writer, user);
            },
        }
        let vec: Vec<u8> = writer.into_inner();
        assert(vec@ =~= encode_out(self@));
        vec
    }
}

/// Writes a UUID at the writer's position as two big-endian `u64`, upper half first,
/// and moves past it.
pub fn write_uuid(writer: &mut ByteWriter, uuid: &Uuid)
    ensures
        final(writer).bytes() == spliced(old(writer).bytes(), old(writer).position(), uuid_bytes(*uuid)),
        final(writer).position() == old(writer).position() + 16,
{
    let (most, least): (u64, u64) = uuid_u64_pair(uuid.0);
    let ghost o = writer.bytes();
    let ghost p = writer.position();
    let ghost a = be_u64_bytes(most);
    let ghost b = be_u64_bytes(least);
    proof {
        lemma_uuid_bytes_halves(*uuid, most, least);
        lemma_be_u64_round_trip(most);
    }
    writer.write_u64(most);
    writer.write_u64(least);
    proof {
        lemma_spliced_concat(o, p, a, b);
    }
}

/// Writes the UTF-8 bytes of `string` at the writer's position, with no length before
/// them, and moves past them.
pub fn write_string(writer: &mut ByteWriter, string: &str)
    ensures
        final(writer).bytes() == spliced(old(writer).bytes(), old(writer).position(), string.spec_bytes()),
        final(writer).position() == old(writer).position() + string.spec_bytes().len(),
{
    writer.write_bytes(string.as_bytes());
}

/// The writer's position is at the end of its buffer.
pub(crate) open spec fn at_end(w: ByteWriter) -> bool {
    w.position() == w.bytes().len()
}

/// Appends one byte to a writer that stands at the end of its buffer.
pub(crate) fn append_u8(writer: &mut ByteWriter, b: u8)
    requires
        at_end(*old(writer)),
    ensures
        at_end(*final(writer)),
        final(writer).bytes() == old(writer).bytes().push(b),
{
    let ghost o = writer.bytes();
    writer.write_u8(b);
    proof {
        lemma_spliced_at_end(o, seq![b]);
        assert(o + seq![b] =~= o.push(b));
    }
}

/// Appends a UUID to a writer that stands at the end of its buffer.
pub(crate) fn append_uuid(writer: &mut ByteWriter, uuid: &Uuid)
    requires
        at_end(*old(writer)),
    ensures
        at_end(*final(writer)),
        final(writer).bytes() == old(writer).bytes() + uuid_bytes(*uuid),
{
    let ghost o = writer.bytes();
    write_uuid(writer, uuid);
    proof {
        lemma_spliced_at_end(o, uuid_bytes(*uuid));
        lemma_be_u64_round_trip(uuid.high() as u64);
        lemma_be_u64_round_trip(uuid.low() as u64);
    }
}

/// Appends the UTF-8 bytes of `string` to a writer that stands at the end of its buffer.
pub(crate) fn append_string(writer: &mut ByteWriter, string: &str)
    requires
        at_end(*old(writer)),
    ensures
        at_end(*final(writer)),
        final(writer).bytes() == old(writer).bytes() + string.spec_bytes(),
{
    let ghost o = writer.bytes();
    write_string(writer, string);
    proof {
        lemma_spliced_at_end(o, string.spec_bytes());
    }
}

} // verus!
