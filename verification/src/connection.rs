//! Connection state, the registry of open connections, and the decisions taken on
//! each message a connection receives.
use std::collections::HashMap;
use vstd::prelude::*;
use vstd::string::StringExecFns;
use crate::c2s_message::{WorldHostC2SMessage, C2SMessageView, C2SFailure, parse_c2s, failure_text};
use crate::ids::{Uuid, random_uuid_value};
use crate::s2c_message::{WorldHostS2CMessage, S2CMessageView};
use crate::wire::{ByteCursor, uuid_at};

verus! {

broadcast use vstd::std_specs::hash::group_hash_axioms;

/// How a player who was granted a join reaches the host's world.
#[derive(Clone, Copy, Debug, PartialEq, Eq, Structural)]
pub enum JoinType {
    /// Directly, through a port that the host opened with UPnP.
    UPnP { port: u16 },
    /// Through the server's proxy.
    Proxy,
}

/// Whether a connection's world is open to others, and how.
#[derive(Clone, Copy, Debug, PartialEq, Eq, Structural)]
pub enum ConnectionState {
    /// No world is open.
    Closed,
    /// The world is reachable through a port opened with UPnP.
    UPnP { port: u16 },
    /// The world is reachable through the proxy.
    Proxy,
}

/// The registry of open connections: each connection under its id, and the ids of
/// each user's connections, in the order they were added.
pub struct ConnectionsSetSync<C> {
    connections: HashMap<u128, C>,
    connections_by_user_id: HashMap<u128, Vec<Uuid>>,
    history: Ghost<Seq<(Uuid, Uuid, C)>>,
}

/// The connections after the registrations `adds` (each an id, a user and a
/// connection), made in order on an empty registry.
pub open spec fn connections_after<C>(adds: Seq<(Uuid, Uuid, C)>) -> Map<u128, C>
    decreases adds.len(),
{
    if adds.len() == 0 {
        Map::empty()
    } else {
        connections_after(adds.drop_last()).insert(adds.last().0.0, adds.last().2)
    }
}

/// The connection ids of each user after the registrations `adds`, made in order on an
/// empty registry.
pub open spec fn users_after<C>(adds: Seq<(Uuid, Uuid, C)>) -> Map<u128, Seq<Uuid>>
    decreases adds.len(),
{
    if adds.len() == 0 {
        Map::empty()
    } else {
        let before = users_after(adds.drop_last());
        before.insert(adds.last().1.0, listed_for(before, adds.last().1).push(adds.last().0))
    }
}

/// The ids of the registrations in `adds` made for `user`, in order.
pub open spec fn ids_added_by<C>(adds: Seq<(Uuid, Uuid, C)>, user: Uuid) -> Seq<Uuid>
    decreases adds.len(),
{
    if adds.len() == 0 {
        Seq::empty()
    } else {
        ids_added_by(adds.drop_last(), user) + if adds.last().1 == user {
            seq![adds.last().0]
        } else {
            Seq::empty()
        }
    }
}

/// After the registrations `adds`, an id is registered exactly when it was added, and
/// an id added once more after none of its later registrations maps to the connection
/// added with it.
pub proof fn lemma_connections_after<C>(adds: Seq<(Uuid, Uuid, C)>)
    ensures
        forall|x: u128|
            connections_after(adds).contains_key(x) <==> exists|j: int|
                0 <= j < adds.len() && (#[trigger] adds[j]).0.0 == x,
        forall|j: int|
            0 <= j < adds.len() && (forall|k: int| j < k < adds.len() ==> (#[trigger] adds[k]).0 != adds[j].0)
                ==> connections_after(adds)[(#[trigger] adds[j]).0.0] == adds[j].2,
    decreases adds.len(),
{
    if adds.len() > 0 {
        let prev = adds.drop_last();
        lemma_connections_after(prev);
        let n = adds.len() - 1;
        assert forall|x: u128| #[trigger] connections_after(adds).contains_key(x) implies exists|j: int|
            0 <= j < adds.len() && (#[trigger] adds[j]).0.0 == x by {
            if x == adds[n].0.0 {
                assert(0 <= n < adds.len() && adds[n].0.0 == x);
            } else {
                assert(connections_after(prev).contains_key(x));
                let j = choose|j: int| 0 <= j < prev.len() && (#[trigger] prev[j]).0.0 == x;
                assert(adds[j] == prev[j]);
                assert(0 <= j < adds.len() && adds[j].0.0 == x);
            }
        }
        assert forall|x: u128| (exists|j: int| 0 <= j < adds.len() && (#[trigger] adds[j]).0.0 == x)
            implies #[trigger] connections_after(adds).contains_key(x) by {
            let j = choose|j: int| 0 <= j < adds.len() && (#[trigger] adds[j]).0.0 == x;
            if j < n {
                assert(prev[j] == adds[j]);
                assert(connections_after(prev).contains_key(x));
            }
        }
        assert forall|j: int|
            0 <= j < adds.len() && (forall|k: int| j < k < adds.len() ==> (#[trigger] adds[k]).0 != adds[j].0)
                implies connections_after(adds)[(#[trigger] adds[j]).0.0] == adds[j].2 by {
            if j < n {
                assert(adds[n].0 != adds[j].0);
                assert(prev[j] == adds[j]);
                assert forall|k: int| j < k < prev.len() implies (#[trigger] prev[k]).0 != prev[j].0 by {
                    assert(prev[k] == adds[k]);
                }
            }
        }
    }
}

/// After the registrations `adds`, a user has an entry exactly when a registration was
/// made for it, and its entry lists the ids added for it, in the order they were added.
pub proof fn lemma_users_after<C>(adds: Seq<(Uuid, Uuid, C)>)
    ensures
        forall|w: Uuid|
            users_after(adds).contains_key(w.0) <==> exists|j: int|
                0 <= j < adds.len() && (#[trigger] adds[j]).1 == w,
        forall|w: Uuid| #[trigger] listed_for(users_after(adds), w) == ids_added_by(adds, w),
    decreases adds.len(),
{
    if adds.len() > 0 {
        let prev = adds.drop_last();
        lemma_users_after(prev);
        let n = adds.len() - 1;
        assert forall|w: Uuid| #[trigger] users_after(adds).contains_key(w.0) implies exists|j: int|
            0 <= j < adds.len() && (#[trigger] adds[j]).1 == w by {
            if w.0 == adds[n].1.0 {
                assert(adds[n].1 == w);
                assert(0 <= n < adds.len() && adds[n].1 == w);
            } else {
                assert(users_after(prev).contains_key(w.0));
                let j = choose|j: int| 0 <= j < prev.len() && (#[trigger] prev[j]).1 == w;
                assert(adds[j] == prev[j]);
                assert(0 <= j < adds.len() && adds[j].1 == w);
            }
        }
        assert forall|w: Uuid| (exists|j: int| 0 <= j < adds.len() && (#[trigger] adds[j]).1 == w)
            implies #[trigger] users_after(adds).contains_key(w.0) by {
            let j = choose|j: int| 0 <= j < adds.len() && (#[trigger] adds[j]).1 == w;
            if j < n {
                assert(prev[j] == adds[j]);
                assert(users_after(prev).contains_key(w.0));
            }
        }
        assert forall|w: Uuid| #[trigger] listed_for(users_after(adds), w) == ids_added_by(adds, w) by {
            assert(listed_for(users_after(prev), w) == ids_added_by(prev, w));
            if adds[n].1 == w {
                assert(ids_added_by(adds, w) =~= ids_added_by(prev, w).push(adds[n].0));
            } else {
                assert(ids_added_by(adds, w) =~= ids_added_by(prev, w));
            }
        }
    }
}

/// The connection ids listed under `user`; none when the user has no entry.
pub open spec fn listed_for(users: Map<u128, Seq<Uuid>>, user: Uuid) -> Seq<Uuid> {
    if users.contains_key(user.0) {
        users[user.0]
    } else {
        Seq::empty()
    }
}

/// Every connection id listed under a user is in `registered`.
pub open spec fn lists_registered(registered: Set<u128>, users: Map<u128, Seq<Uuid>>) -> bool {
    forall|user: u128, i: int|
        #![trigger users[user][i]]
        users.contains_key(user) && 0 <= i < users[user].len() ==> registered.contains(
            users[user][i].0,
        )
}

impl<C> ConnectionsSetSync<C> {
    /// The connections, under the 128-bit value of their id.
    pub closed spec fn connections_view(&self) -> Map<u128, C> {
        self.connections@
    }

    /// The ids of each user's connections, under the 128-bit value of the user's id.
    pub closed spec fn users_view(&self) -> Map<u128, Seq<Uuid>> {
        self.connections_by_user_id@.map_values(|v: Vec<Uuid>| v@)
    }

    /// The registrations made so far (id, user, connection), in order.
    pub closed spec fn history(&self) -> Seq<(Uuid, Uuid, C)> {
        self.history@
    }

    /// The registry holds what its registrations made, and every connection id listed
    /// under a user is that of a registered connection.
    pub open spec fn wf(&self) -> bool {
        &&& lists_registered(self.connections_view().dom(), self.users_view())
        &&& self.connections_view() == connections_after(self.history())
        &&& self.users_view() == users_after(self.history())
    }

    /// An empty registry.
    pub fn new() -> (set: Self)
        ensures
            set.wf(),
            set.connections_view() == Map::<u128, C>::empty(),
            set.users_view() == Map::<u128, Seq<Uuid>>::empty(),
            set.history() == Seq::<(Uuid, Uuid, C)>::empty(),
    {
        let set = ConnectionsSetSync {
            connections: HashMap::new(),
            connections_by_user_id: HashMap::new(),
            history: Ghost(Seq::empty()),
        };
        assert(set.users_view() =~= Map::<u128, Seq<Uuid>>::empty());
        set
    }

    /// The connection registered under `id`.
    pub fn by_id(&self, id: &Uuid) -> (res: Option<&C>)
        ensures
            match res {
                Some(c) => self.connections_view().contains_key(id.0) && *c
                    == self.connections_view()[id.0],
                None => !self.connections_view().contains_key(id.0),
            },
    {
        self.connections.get(&id.0)
    }

    /// The ids of the connections of the user `user_id`, if any was ever added.
    pub fn by_user_id(&self, user_id: &Uuid) -> (res: Option<&Vec<Uuid>>)
        ensures
            match res {
                Some(ids) => self.users_view().contains_key(user_id.0) && ids@
                    == self.users_view()[user_id.0],
                None => !self.users_view().contains_key(user_id.0),
            },
    {
        self.connections_by_user_id.get(&user_id.0)
    }

    /// Registers `connection` under `id`, and appends `id` to the connections of the
    /// user `user_uuid`.
    pub fn add(&mut self, id: Uuid, user_uuid: Uuid, connection: C)
        requires
            old(self).wf(),
        ensures
            final(self).wf(),
            final(self).connections_view() == old(self).connections_view().insert(id.0, connection),
            final(self).users_view() == old(self).users_view().insert(
                user_uuid.0,
                listed_for(old(self).users_view(), user_uuid).push(id),
            ),
            final(self).history() == old(self).history().push((id, user_uuid, connection)),
    {
        let ghost old_history = self.history();
        let ghost added = (id, user_uuid, connection);
        let ghost old_users = self.users_view();
        let ghost old_conns = self.connections_view();
        let key: u128 = user_uuid.0;
        let mut ids: Vec<Uuid> = match self.connections_by_user_id.remove(&key) {
            Some(v) => v,
            None => Vec::new(),
        };
        assert(ids@ == listed_for(old_users, user_uuid));
        ids.push(id);
        self.connections.insert(id.0, connection);
        let ghost mid = self.connections_by_user_id@;
        self.connections_by_user_id.insert(key, ids);
        self.history = Ghost(old_history.push(added));
        assert(self.users_view() =~= old_users.insert(key, listed_for(old_users, user_uuid).push(id)));
        assert(self.history().drop_last() == old_history);
        assert forall|user: u128, i: int|
            self.users_view().contains_key(user) && 0 <= i < self.users_view()[user].len()
            implies #[trigger] self.connections_view().contains_key(self.users_view()[user][i].0) by {
            if user != key {
                assert(old_users[user][i] == self.users_view()[user][i]);
            } else if i < self.users_view()[user].len() - 1 {
                assert(old_users[user][i] == self.users_view()[user][i]);
            }
        }
    }
}

/// After the registrations made on a registry, `by_id` finds exactly the added ids;
/// an id that no later registration reused finds the connection added with it.
pub proof fn lemma_registered_ids<C>(set: &ConnectionsSetSync<C>)
    requires
        set.wf(),
    ensures
        forall|x: u128|
            set.connections_view().contains_key(x) <==> exists|j: int|
                0 <= j < set.history().len() && (#[trigger] set.history()[j]).0.0 == x,
        forall|j: int|
            0 <= j < set.history().len() && (forall|k: int|
                j < k < set.history().len() ==> (#[trigger] set.history()[k]).0 != set.history()[j].0)
                ==> set.connections_view()[(#[trigger] set.history()[j]).0.0] == set.history()[j].2,
{
    lemma_connections_after(set.history());
}

/// After the registrations made on a registry, `by_user_id` finds a user exactly when
/// a registration was made for it, and lists the ids added for it, in the order they
/// were added, and no other.
pub proof fn lemma_user_ids_in_add_order<C>(set: &ConnectionsSetSync<C>)
    requires
        set.wf(),
    ensures
        forall|w: Uuid|
            set.users_view().contains_key(w.0) <==> exists|j: int|
                0 <= j < set.history().len() && (#[trigger] set.history()[j]).1 == w,
        forall|w: Uuid| #[trigger] listed_for(set.users_view(), w) == ids_added_by(set.history(), w),
{
    lemma_users_after(set.history());
}

/// The part of a connection that the decisions read: its id, its user, and the state
/// of its world.
#[derive(Clone, Copy, Debug, PartialEq, Eq, Structural)]
pub struct Connection {
    pub id: Uuid,
    pub user_uuid: Uuid,
    pub state: ConnectionState,
}

/// Why the first message of a connection was refused.
#[derive(Clone, Copy, Debug, PartialEq, Eq, Structural)]
pub enum HandshakeError {
    /// The message was not a binary frame.
    NotBinary,
    /// The message did not hold a UUID.
    InvalidUuid,
}

impl HandshakeError {
    /// The reason given when the connection is closed.
    pub open spec fn reason_text(self) -> Seq<char> {
        match self {
            HandshakeError::NotBinary => "Invalid handshake: not binary."@,
            HandshakeError::InvalidUuid => "Invalid handshake: failed to read UUID."@,
        }
    }

    /// Renders the reason given when the connection is closed.
    pub fn reason(&self) -> (s: String)
        ensures
            s@ == self.reason_text(),
    {
        match self {
            HandshakeError::NotBinary => String::from_str("Invalid handshake: not binary."),
            HandshakeError::InvalidUuid => String::from_str("Invalid handshake: failed to read UUID."),
        }
    }
}

/// Checks the first message of a connection: a binary frame that starts with the UUID
/// of the connecting user. The connection gets the id `id` and no open world.
pub fn accept_handshake(id: Uuid, is_binary: bool, data: Vec<u8>) -> (res: Result<Connection, HandshakeError>)
    ensures
        !is_binary ==> res == Err::<Connection, HandshakeError>(HandshakeError::NotBinary),
        is_binary && data@.len() < 16 ==> res == Err::<Connection, HandshakeError>(
            HandshakeError::InvalidUuid,
        ),
        is_binary && data@.len() >= 16 ==> res == Ok::<Connection, HandshakeError>(
            Connection { id, user_uuid: uuid_at(data@, 0), state: ConnectionState::Closed },
        ),
{
    if !is_binary {
        return Err(HandshakeError::NotBinary);
    }
    let mut reader = ByteCursor::new(data);
    match reader.read_uuid() {
        Ok(user_uuid) => Ok(Connection { id, user_uuid, state: ConnectionState::Closed }),
        Err(_) => Err(HandshakeError::InvalidUuid),
    }
}

/// Checks the first message of a connection as `accept_handshake` does, giving the
/// connection a fresh random id of UUID version 4.
pub fn open_connection(is_binary: bool, data: Vec<u8>) -> (res: Result<Connection, HandshakeError>)
    ensures
        !is_binary ==> res == Err::<Connection, HandshakeError>(HandshakeError::NotBinary),
        is_binary && data@.len() < 16 ==> res == Err::<Connection, HandshakeError>(
            HandshakeError::InvalidUuid,
        ),
        is_binary && data@.len() >= 16 ==> (res matches Ok(c) && c.user_uuid == uuid_at(data@, 0)
            && c.state == ConnectionState::Closed && (c.id.0 / 0x1000_0000_0000_0000_0000) % 16 == 4
            && (c.id.0 / 0x4000_0000_0000_0000) % 4 == 2),
{
    let id: Uuid = Uuid(random_uuid_value());
    accept_handshake(id, is_binary, data)
}

/// What to do with a message that a connection received.
#[derive(Debug, PartialEq, Eq)]
pub enum Dispatch {
    /// Nothing is sent.
    Ignore,
    /// The message is sent back to the connection that sent the frame.
    Reply(WorldHostS2CMessage),
    /// The message is sent to each of these connections, in order.
    Forward { targets: Vec<Uuid>, message: WorldHostS2CMessage },
}

/// The mathematical value of a dispatch decision.
pub enum DispatchView {
    Ignore,
    Reply(S2CMessageView),
    Forward { targets: Seq<Uuid>, message: S2CMessageView },
}

impl View for Dispatch {
    type V = DispatchView;

    open spec fn view(&self) -> DispatchView {
        match self {
            Dispatch::Ignore => DispatchView::Ignore,
            Dispatch::Reply(m) => DispatchView::Reply(m@),
            Dispatch::Forward { targets, message } => DispatchView::Forward {
                targets: targets@,
                message: message@,
            },
        }
    }
}

/// The connections of each of `friends`, friend after friend.
pub open spec fn targets_of(users: Map<u128, Seq<Uuid>>, friends: Seq<Uuid>) -> Seq<Uuid>
    decreases friends.len(),
{
    if friends.len() == 0 {
        Seq::empty()
    } else {
        targets_of(users, friends.drop_last()) + listed_for(users, friends.last())
    }
}

/// What the server does with the frame `data` received by `sender`, given the ids
/// of the registered connections and the connections of each user.
pub open spec fn expected_dispatch(
    registered: Set<u128>,
    users: Map<u128, Seq<Uuid>>,
    sender: Connection,
    is_binary: bool,
    data: Seq<u8>,
) -> DispatchView {
    if !is_binary {
        DispatchView::Ignore
    } else {
        match parse_c2s(data) {
            Err(f) => DispatchView::Reply(S2CMessageView::Error { message: failure_text(f) }),
            Ok(m) => match m {
                C2SMessageView::ListOnline { friends } => DispatchView::Forward {
                    targets: targets_of(users, friends),
                    message: S2CMessageView::IsOnlineTo {
                        user: sender.user_uuid,
                        connection_id: sender.id,
                    },
                },
                C2SMessageView::IsOnlineTo { connection_id } => DispatchView::Forward {
                    targets: if registered.contains(connection_id.0) {
                        seq![connection_id]
                    } else {
                        Seq::empty()
                    },
                    message: S2CMessageView::PublishedWorld { user: sender.user_uuid },
                },
                C2SMessageView::FriendRequest { to_user } => DispatchView::Forward {
                    targets: listed_for(users, to_user),
                    message: S2CMessageView::FriendRequest { from_user: sender.user_uuid },
                },
                C2SMessageView::PublishedWorld { friends } => DispatchView::Forward {
                    targets: targets_of(users, friends),
                    message: S2CMessageView::PublishedWorld { user: sender.user_uuid },
                },
                C2SMessageView::ClosedWorld { friends } => DispatchView::Forward {
                    targets: targets_of(users, friends),
                    message: S2CMessageView::ClosedWorld { user: sender.user_uuid },
                },
                C2SMessageView::RequestJoin { .. } => DispatchView::Ignore,
                C2SMessageView::JoinGranted { .. } => DispatchView::Ignore,
            },
        }
    }
}

/// The connections of users whose lists hold only registered connections are registered.
proof fn lemma_targets_of_registered(
    registered: Set<u128>,
    users: Map<u128, Seq<Uuid>>,
    friends: Seq<Uuid>,
)
    requires
        lists_registered(registered, users),
    ensures
        forall|i: int|
            0 <= i < targets_of(users, friends).len() ==> registered.contains(
                #[trigger] targets_of(users, friends)[i].0,
            ),
    decreases friends.len(),
{
    if friends.len() > 0 {
        lemma_targets_of_registered(registered, users, friends.drop_last());
        let before = targets_of(users, friends.drop_last());
        let last = listed_for(users, friends.last());
        assert forall|i: int| 0 <= i < targets_of(users, friends).len() implies registered.contains(
            #[trigger] targets_of(users, friends)[i].0,
        ) by {
            if i >= before.len() {
                assert(targets_of(users, friends)[i] == last[i - before.len()]);
                assert(users[friends.last().0][i - before.len()] == last[i - before.len()]);
            } else {
                assert(targets_of(users, friends)[i] == before[i]);
            }
        }
    }
}

/// `targets` are the connections listed for `friends`: each connection listed for any
/// of the friends is among them, and each of them is listed for one of the friends.
pub open spec fn reaches_exactly(
    users: Map<u128, Seq<Uuid>>,
    friends: Seq<Uuid>,
    targets: Seq<Uuid>,
) -> bool {
    &&& forall|k: int, i: int|
        0 <= k && k < friends.len() && 0 <= i && i < listed_for(users, friends[k]).len() ==> targets.contains(
            #[trigger] listed_for(users, friends[k])[i],
        )
    &&& forall|j: int|
        0 <= j && j < targets.len() ==> #[trigger] listed_for_some(users, friends, targets[j])
}

/// `x` is listed for one of `friends`.
pub open spec fn listed_for_some(users: Map<u128, Seq<Uuid>>, friends: Seq<Uuid>, x: Uuid) -> bool {
    exists|k: int, i: int|
        #![trigger listed_for(users, friends[k])[i]]
        0 <= k && k < friends.len() && 0 <= i && i < listed_for(users, friends[k]).len() && x
            == listed_for(users, friends[k])[i]
}

/// The connections of each of a list of friends, friend after friend, are exactly the
/// connections listed for those friends.
pub proof fn lemma_targets_of_reaches_exactly(users: Map<u128, Seq<Uuid>>, friends: Seq<Uuid>)
    ensures
        reaches_exactly(users, friends, targets_of(users, friends)),
    decreases friends.len(),
{
    if friends.len() > 0 {
        let n = friends.len() - 1;
        let prev = friends.drop_last();
        let before = targets_of(users, prev);
        let last = listed_for(users, friends[n]);
        let t = targets_of(users, friends);
        lemma_targets_of_reaches_exactly(users, prev);
        assert(t == before + last);
        assert forall|k: int, i: int|
            0 <= k && k < friends.len() && 0 <= i && i < listed_for(users, friends[k]).len() implies t.contains(
                #[trigger] listed_for(users, friends[k])[i],
            ) by {
            if k < n {
                assert(prev[k] == friends[k]);
                let x = listed_for(users, prev[k])[i];
                assert(before.contains(x));
                let j = choose|j: int| 0 <= j && j < before.len() && before[j] == x;
                assert(t[j] == x);
            } else {
                assert(t[before.len() + i] == last[i]);
            }
        }
        assert forall|j: int| 0 <= j && j < t.len() implies #[trigger] listed_for_some(users, friends, t[j]) by {
            if j < before.len() {
                assert(t[j] == before[j]);
                assert(listed_for_some(users, prev, before[j]));
                let (k, i) = choose|k: int, i: int|
                    #![trigger listed_for(users, prev[k])[i]]
                    0 <= k && k < prev.len() && 0 <= i && i < listed_for(users, prev[k]).len() && before[j]
                        == listed_for(users, prev[k])[i];
                assert(prev[k] == friends[k]);
                assert(t[j] == listed_for(users, friends[k])[i]);
            } else {
                let i = j - before.len();
                assert(t[j] == listed_for(users, friends[n])[i]);
            }
        }
        assert(reaches_exactly(users, friends, t));
    } else {
        assert(targets_of(users, friends) =~= Seq::<Uuid>::empty());
    }
}

/// The connections of each of a list of friends, friend after friend, are the lists of
/// the friends' connections joined in the order of the friends.
pub proof fn lemma_targets_of_flatten(users: Map<u128, Seq<Uuid>>, friends: Seq<Uuid>)
    ensures
        targets_of(users, friends) == friends.map_values(|f: Uuid| listed_for(users, f)).flatten(),
    decreases friends.len(),
{
    let lists = friends.map_values(|f: Uuid| listed_for(users, f));
    if friends.len() == 0 {
        assert(lists =~= Seq::<Seq<Uuid>>::empty());
    } else {
        let prev = friends.drop_last();
        lemma_targets_of_flatten(users, prev);
        let prev_lists = prev.map_values(|f: Uuid| listed_for(users, f));
        assert(lists =~= prev_lists.push(listed_for(users, friends.last())));
        prev_lists.lemma_flatten_push(listed_for(users, friends.last()));
    }
}

/// What the relay does with each kind of frame, over all registries, senders and
/// frames: a frame that is not binary is ignored; one that does not decode is answered
/// with the text of its error; an online list, a published world and a closed world go to
/// every connection listed for every friend named in the frame and to no other, friend
/// after friend in the order of the frame, as a notice that names the sender's user (and, for the online list, the sender's
/// connection); a friend request goes to every connection listed for the addressed user,
/// naming the sender's user; an online-to notice goes to the named connection when it is
/// registered and to nobody otherwise; join requests and join grants are ignored.
pub proof fn lemma_relay_by_kind(
    registered: Set<u128>,
    users: Map<u128, Seq<Uuid>>,
    sender: Connection,
    is_binary: bool,
    data: Seq<u8>,
)
    ensures
        ({
            let d = expected_dispatch(registered, users, sender, is_binary, data);
            if !is_binary {
                d == DispatchView::Ignore
            } else {
                match parse_c2s(data) {
                    Err(f) => d == DispatchView::Reply(S2CMessageView::Error { message: failure_text(f) }),
                    Ok(C2SMessageView::ListOnline { friends }) => d matches DispatchView::Forward {
                        targets,
                        message,
                    } && message == (S2CMessageView::IsOnlineTo {
                        user: sender.user_uuid,
                        connection_id: sender.id,
                    }) && reaches_exactly(users, friends, targets)
                        && targets == friends.map_values(|f: Uuid| listed_for(users, f)).flatten(),
                    Ok(C2SMessageView::PublishedWorld { friends }) => d matches DispatchView::Forward {
                        targets,
                        message,
                    } && message == (S2CMessageView::PublishedWorld { user: sender.user_uuid })
                        && reaches_exactly(users, friends, targets)
                        && targets == friends.map_values(|f: Uuid| listed_for(users, f)).flatten(),
                    Ok(C2SMessageView::ClosedWorld { friends }) => d matches DispatchView::Forward {
                        targets,
                        message,
                    } && message == (S2CMessageView::ClosedWorld { user: sender.user_uuid })
                        && reaches_exactly(users, friends, targets)
                        && targets == friends.map_values(|f: Uuid| listed_for(users, f)).flatten(),
                    Ok(C2SMessageView::FriendRequest { to_user }) => d matches DispatchView::Forward {
                        targets,
                        message,
                    } && message == (S2CMessageView::FriendRequest { from_user: sender.user_uuid })
                        && reaches_exactly(users, seq![to_user], targets)
                        && targets == listed_for(users, to_user),
                    Ok(C2SMessageView::IsOnlineTo { connection_id }) => d matches DispatchView::Forward {
                        targets,
                        message,
                    } && message == (S2CMessageView::PublishedWorld { user: sender.user_uuid })
                        && (registered.contains(connection_id.0) ==> targets == seq![connection_id])
                        && (!registered.contains(connection_id.0) ==> targets.len() == 0),
                    Ok(_) => d == DispatchView::Ignore,
                }
            }
        }),
{
    if is_binary {
        if let Ok(m) = parse_c2s(data) {
            match m {
                C2SMessageView::ListOnline { friends } => {
                    lemma_targets_of_reaches_exactly(users, friends);
                    lemma_targets_of_flatten(users, friends);
                },
                C2SMessageView::PublishedWorld { friends } => {
                    lemma_targets_of_reaches_exactly(users, friends);
                    lemma_targets_of_flatten(users, friends);
                },
                C2SMessageView::ClosedWorld { friends } => {
                    lemma_targets_of_reaches_exactly(users, friends);
                    lemma_targets_of_flatten(users, friends);
                },
                C2SMessageView::FriendRequest { to_user } => {
                    let one: Seq<Uuid> = seq![to_user];
                    lemma_targets_of_reaches_exactly(users, one);
                    assert(one.drop_last() =~= Seq::<Uuid>::empty());
                    assert(targets_of(users, one.drop_last()) == Seq::<Uuid>::empty());
                    assert(targets_of(users, one) =~= listed_for(users, to_user));
                },
                _ => {},
            }
        }
    }
}

/// A message is only ever relayed to registered connections: while every connection
/// listed under a user is registered, each target of a forward is registered.
pub proof fn lemma_relay_targets_registered(
    registered: Set<u128>,
    users: Map<u128, Seq<Uuid>>,
    sender: Connection,
    is_binary: bool,
    data: Seq<u8>,
)
    requires
        lists_registered(registered, users),
    ensures
        expected_dispatch(registered, users, sender, is_binary, data) matches DispatchView::Forward {
            targets,
            ..
        } ==> forall|i: int| 0 <= i < targets.len() ==> registered.contains(#[trigger] targets[i].0),
{
    if is_binary {
        if let Ok(m) = parse_c2s(data) {
            match m {
                C2SMessageView::ListOnline { friends } => {
                    lemma_targets_of_registered(registered, users, friends);
                },
                C2SMessageView::PublishedWorld { friends } => {
                    lemma_targets_of_registered(registered, users, friends);
                },
                C2SMessageView::ClosedWorld { friends } => {
                    lemma_targets_of_registered(registered, users, friends);
                },
                C2SMessageView::FriendRequest { to_user } => {
                    lemma_targets_of_registered(registered, users, seq![to_user]);
                    assert(targets_of(users, seq![to_user]) =~= listed_for(users, to_user)) by {
                        let one: Seq<Uuid> = seq![to_user];
                        assert(one.drop_last() =~= Seq::<Uuid>::empty());
                        assert(one.last() == to_user);
                        assert(targets_of(users, one.drop_last()) == Seq::<Uuid>::empty());
                    };
                },
                _ => {},
            }
        }
    }
}

impl<C> ConnectionsSetSync<C> {
    /// Appends the ids of the registered connections of `user`.
    fn push_connections_of(&self, user: &Uuid, out: &mut Vec<Uuid>)
        requires
            self.wf(),
        ensures
            final(out)@ == old(out)@ + listed_for(self.users_view(), *user),
    {
        let ghost start = out@;
        match self.by_user_id(user) {
            None => {
                assert(out@ =~= start + listed_for(self.users_view(), *user));
            },
            Some(ids) => {
                let ghost list = listed_for(self.users_view(), *user);
                let mut j: usize = 0;
                while j < ids.len()
                    invariant
                        self.wf(),
                        ids@ == list,
                        list == self.users_view()[user.0],
                        self.users_view().contains_key(user.0),
                        0 <= j <= ids@.len(),
                        out@ == start + list.take(j as int),
                    decreases ids@.len() - j,
                {
                    let conn_id: Uuid = ids[j];
                    assert(self.connections_view().contains_key(self.users_view()[user.0][j as int].0));
                    if self.by_id(&conn_id).is_some() {
                        out.push(conn_id);
                    }
                    j = j + 1;
                    assert(out@ =~= start + list.take(j as int));
                }
                assert(list.take(j as int) =~= list);
            },
        }
    }

    /// The ids of the registered connections of each of `friends`, friend after friend.
    fn connections_of_all(&self, friends: &Vec<Uuid>) -> (targets: Vec<Uuid>)
        requires
            self.wf(),
        ensures
            targets@ == targets_of(self.users_view(), friends@),
    {
        let mut targets: Vec<Uuid> = Vec::new();
        let mut i: usize = 0;
        while i < friends.len()
            invariant
                self.wf(),
                0 <= i <= friends@.len(),
                targets@ == targets_of(self.users_view(), friends@.take(i as int)),
            decreases friends@.len() - i,
        {
            self.push_connections_of(&friends[i], &mut targets);
            i = i + 1;
            assert(friends@.take(i as int).drop_last() =~= friends@.take(i as int - 1));
        }
        assert(friends@.take(i as int) =~= friends@);
        targets
    }
}

/// Decides what to do with the frame `data` that the connection `sender` received:
/// a frame that is not binary is ignored; one that does not decode is answered with
/// the error's text; a decoded message is relayed to the connections it concerns,
/// except a join request or a join grant, which is ignored.
pub fn handle_message<C>(
    connections: &ConnectionsSetSync<C>,
    sender: &Connection,
    is_binary: bool,
    data: Vec<u8>,
) -> (d: Dispatch)
    requires
        connections.wf(),
    ensures
        d@ == expected_dispatch(
            connections.connections_view().dom(),
            connections.users_view(),
            *sender,
            is_binary,
            data@,
        ),
{
    if !is_binary {
        return Dispatch::Ignore;
    }
    let message = match WorldHostC2SMessage::read(ByteCursor::new(data)) {
        Ok(message) => message,
        Err(err) => {
            return Dispatch::Reply(WorldHostS2CMessage::Error { message: err.to_string() });
        },
    };
    match message {
        WorldHostC2SMessage::ListOnline { friends } => Dispatch::Forward {
            targets: connections.connections_of_all(&friends),
            message: WorldHostS2CMessage::IsOnlineTo {
                user: sender.user_uuid,
                connection_id: sender.id,
            },
        },
        WorldHostC2SMessage::IsOnlineTo { connection_id } => {
            let mut targets: Vec<Uuid> = Vec::new();
            if connections.by_id(&connection_id).is_some() {
                targets.push(connection_id);
            }
            Dispatch::Forward {
                targets,
                message: WorldHostS2CMessage::PublishedWorld { user: sender.user_uuid },
            }
        },
        WorldHostC2SMessage::FriendRequest { to_user } => {
            let mut targets: Vec<Uuid> = Vec::new();
            connections.push_connections_of(&to_user, &mut targets);
            Dispatch::Forward {
                targets,
                message: WorldHostS2CMessage::FriendRequest { from_user: sender.user_uuid },
            }
        },
        WorldHostC2SMessage::PublishedWorld { friends } => Dispatch::Forward {
            targets: connections.connections_of_all(&friends),
            message: WorldHostS2CMessage::PublishedWorld { user: sender.user_uuid },
        },
        WorldHostC2SMessage::ClosedWorld { friends } => Dispatch::Forward {
            targets: connections.connections_of_all(&friends),
            message: WorldHostS2CMessage::ClosedWorld { user: sender.user_uuid },
        },
        WorldHostC2SMessage::RequestJoin { .. } => Dispatch::Ignore,
        WorldHostC2SMessage::JoinGranted { .. } => Dispatch::Ignore,
    }
}

} // verus!
