//! The server's shared registries: the user table, the room directory
//! with its ordered memberships, the map from user to current room, and
//! the SFU router. `ServerState` owns all four; every mutation states
//! exactly how the model changes and preserves the server invariants:
//! every room member is a registered user, a room exists exactly while
//! it has at least one member, membership and the user-to-room map agree,
//! and the router invariants hold.

use vstd::prelude::*;
use vstd::hash_map::StringHashMap;

use crate::messages::{ParticipantInfo, ParticipantModel};
use crate::router::{RouterModel, SfuRouter};
use crate::util::{lemma_map_values_empty, lemma_map_values_insert, lemma_map_values_remove,
    str_eq};

verus! {

/// A room: its ordered membership, one entry per member, in join order.
pub struct Room {
    pub participants: Vec<ParticipantInfo>,
}

impl View for Room {
    type V = Seq<ParticipantModel>;

    open spec fn view(&self) -> Seq<ParticipantModel> {
        self.participants.deep_view()
    }
}

/// True when the membership holds an entry for this user.
pub open spec fn is_member(ps: Seq<ParticipantModel>, user_id: Seq<char>) -> bool {
    exists|i: int| 0 <= i < ps.len() && (#[trigger] ps[i]).user_id == user_id
}

/// The display name recorded for this member.
pub open spec fn member_username(ps: Seq<ParticipantModel>, user_id: Seq<char>) -> Seq<char>
    decreases ps.len(),
{
    if ps.len() == 0 {
        Seq::empty()
    } else if ps.last().user_id == user_id {
        ps.last().username
    } else {
        member_username(ps.drop_last(), user_id)
    }
}

/// The membership without this user's entry, in the original order.
pub open spec fn without_member(ps: Seq<ParticipantModel>, user_id: Seq<char>) -> Seq<
    ParticipantModel,
>
    decreases ps.len(),
{
    if ps.len() == 0 {
        Seq::empty()
    } else {
        let rest = without_member(ps.drop_last(), user_id);
        if ps.last().user_id == user_id {
            rest
        } else {
            rest.push(ps.last())
        }
    }
}

/// Every entry kept by `without_member` is another user's and occurs in
/// the original membership.
pub proof fn lemma_without_member_sub(ps: Seq<ParticipantModel>, user_id: Seq<char>)
    ensures
        forall|i: int|
            0 <= i < without_member(ps, user_id).len() ==> (#[trigger] without_member(
                ps,
                user_id,
            )[i]).user_id != user_id && ps.contains(without_member(ps, user_id)[i]),
    decreases ps.len(),
{
    if ps.len() > 0 {
        let prefix = ps.drop_last();
        lemma_without_member_sub(prefix, user_id);
        let kept = without_member(ps, user_id);
        let rest = without_member(prefix, user_id);
        assert forall|i: int| 0 <= i < kept.len() implies (#[trigger] kept[i]).user_id != user_id
            && ps.contains(kept[i]) by {
            if ps.last().user_id != user_id && i == kept.len() - 1 {
                assert(kept[i] == ps.last());
                assert(ps.contains(ps.last()));
            } else {
                assert(kept[i] == rest[i]);
                assert(prefix.contains(rest[i]));
                let j = choose|j: int| 0 <= j < prefix.len() && prefix[j] == rest[i];
                assert(ps[j] == rest[i]);
                assert(ps.contains(rest[i]));
            }
        }
    }
}

/// Every other member survives `without_member`.
pub proof fn lemma_without_member_complete(ps: Seq<ParticipantModel>, user_id: Seq<char>)
    ensures
        forall|i: int|
            0 <= i < ps.len() && (#[trigger] ps[i]).user_id != user_id ==> without_member(
                ps,
                user_id,
            ).contains(ps[i]),
    decreases ps.len(),
{
    if ps.len() > 0 {
        lemma_without_member_complete(ps.drop_last(), user_id);
        let kept = without_member(ps, user_id);
        let rest = without_member(ps.drop_last(), user_id);
        assert forall|i: int|
            0 <= i < ps.len() && (#[trigger] ps[i]).user_id != user_id implies kept.contains(
            ps[i],
        ) by {
            if i == ps.len() - 1 {
                assert(kept.last() == ps.last());
                assert(kept.contains(ps.last()));
            } else {
                assert(ps.drop_last()[i] == ps[i]);
                assert(rest.contains(ps[i]));
                let j = choose|j: int| 0 <= j < rest.len() && rest[j] == ps[i];
                if ps.last().user_id != user_id {
                    assert(kept[j] == rest[j]);
                }
                assert(kept.contains(ps[i]));
            }
        }
    }
}

/// `without_member` keeps member identifiers distinct.
pub proof fn lemma_without_member_distinct(ps: Seq<ParticipantModel>, user_id: Seq<char>)
    requires
        forall|i: int, j: int|
            0 <= i < j < ps.len() ==> (#[trigger] ps[i]).user_id != (#[trigger] ps[j]).user_id,
    ensures
        forall|i: int, j: int|
            0 <= i < j < without_member(ps, user_id).len() ==> (#[trigger] without_member(
                ps,
                user_id,
            )[i]).user_id != (#[trigger] without_member(ps, user_id)[j]).user_id,
    decreases ps.len(),
{
    if ps.len() > 0 {
        let prefix = ps.drop_last();
        assert(forall|i: int, j: int|
            0 <= i < j < prefix.len() ==> (#[trigger] prefix[i]).user_id != (
            #[trigger] prefix[j]).user_id) by {
            assert(forall|i: int| 0 <= i < prefix.len() ==> prefix[i] == ps[i]);
        }
        lemma_without_member_distinct(prefix, user_id);
        let kept = without_member(ps, user_id);
        let rest = without_member(prefix, user_id);
        if ps.last().user_id != user_id {
            lemma_without_member_sub(prefix, user_id);
            assert forall|i: int, j: int| 0 <= i < j < kept.len() implies (
            #[trigger] kept[i]).user_id != (#[trigger] kept[j]).user_id by {
                if j == kept.len() - 1 {
                    assert(kept[j] == ps.last());
                    assert(kept[i] == rest[i]);
                    assert(prefix.contains(rest[i]));
                    let k = choose|k: int| 0 <= k < prefix.len() && prefix[k] == rest[i];
                    assert(ps[k] == prefix[k]);
                    assert(ps[k].user_id != ps[ps.len() - 1].user_id);
                } else {
                    assert(kept[i] == rest[i] && kept[j] == rest[j]);
                }
            }
        }
    }
}

/// Spec-level mirror of the whole server state.
#[verifier::ext_equal]
pub struct StateModel {
    /// Registered users: user identifier to display name.
    pub users: Map<Seq<char>, Seq<char>>,
    /// Room directory: room identifier to ordered membership.
    pub rooms: Map<Seq<char>, Seq<ParticipantModel>>,
    /// The room each roomed user occupies.
    pub user_rooms: Map<Seq<char>, Seq<char>>,
    /// The SFU router registries.
    pub router: RouterModel,
}

impl StateModel {
    /// A room is present in the directory only while it has at least one
    /// member.
    pub open spec fn rooms_nonempty(self) -> bool {
        forall|r: Seq<char>| self.rooms.contains_key(r) ==> (#[trigger] self.rooms[r]).len() >= 1
    }

    /// Every member of every room is a registered user.
    pub open spec fn members_are_users(self) -> bool {
        forall|r: Seq<char>, i: int|
            self.rooms.contains_key(r) && 0 <= i < self.rooms[r].len() ==> self.users.contains_key(
                (#[trigger] self.rooms[r][i]).user_id,
            )
    }

    /// No user appears twice in one room's membership.
    pub open spec fn members_distinct(self) -> bool {
        forall|r: Seq<char>, i: int, j: int|
            self.rooms.contains_key(r) && 0 <= i < j < self.rooms[r].len() ==> (
            #[trigger] self.rooms[r][i]).user_id != (#[trigger] self.rooms[r][j]).user_id
    }

    /// Every room member is mapped to that room.
    pub open spec fn members_placed(self) -> bool {
        forall|r: Seq<char>, i: int|
            self.rooms.contains_key(r) && 0 <= i < self.rooms[r].len() ==> {
                let u = (#[trigger] self.rooms[r][i]).user_id;
                self.user_rooms.contains_key(u) && self.user_rooms[u] == r
            }
    }

    /// Every user mapped to a room is a member of that room, which exists.
    pub open spec fn placement_is_membership(self) -> bool {
        forall|u: Seq<char>|
            self.user_rooms.contains_key(u) ==> {
                let r = #[trigger] self.user_rooms[u];
                self.rooms.contains_key(r) && is_member(self.rooms[r], u)
            }
    }

    /// The server invariants, all together.
    pub open spec fn wf(self) -> bool {
        &&& self.rooms_nonempty()
        &&& self.members_are_users()
        &&& self.members_distinct()
        &&& self.members_placed()
        &&& self.placement_is_membership()
        &&& self.router.wf()
    }
}

/// Copies a membership list entry by entry.
pub fn clone_participants(v: &Vec<ParticipantInfo>) -> (r: Vec<ParticipantInfo>)
    ensures
        r.deep_view() == v.deep_view(),
{
    let mut r: Vec<ParticipantInfo> = Vec::new();
    let n = v.len();
    for i in 0..n
        invariant
            n == v.len(),
            r.deep_view() == v.deep_view().take(i as int),
    {
        let p = &v[i];
        r.push(ParticipantInfo { user_id: p.user_id.clone(), username: p.username.clone() });
        proof {
            broadcast use crate::util::lemma_vec_deep_view;

            assert(r.deep_view() =~= v.deep_view().take(i + 1));
        }
    }
    proof {
        assert(v.deep_view().take(n as int) =~= v.deep_view());
    }
    r
}


/// When a mutation leaves the user table, the room directory and the
/// user-to-room map untouched and keeps the router invariants, the
/// server invariants carry over.
pub proof fn lemma_wf_directory_unchanged(prior: StateModel, s: StateModel)
    requires
        prior.wf(),
        s.users == prior.users,
        s.rooms == prior.rooms,
        s.user_rooms == prior.user_rooms,
        s.router.wf(),
    ensures
        s.wf(),
{
    assert forall|r: Seq<char>| s.rooms.contains_key(r) implies (#[trigger] s.rooms[r]).len()
        >= 1 by {
        assert(prior.rooms[r].len() >= 1);
    }
    assert forall|r: Seq<char>, i: int|
        s.rooms.contains_key(r) && 0 <= i < s.rooms[r].len() implies s.users.contains_key(
        (#[trigger] s.rooms[r][i]).user_id,
    ) by {
        assert(prior.rooms[r][i] == s.rooms[r][i]);
    }
    assert forall|r: Seq<char>, i: int, j: int|
        s.rooms.contains_key(r) && 0 <= i < j < s.rooms[r].len() implies (
    #[trigger] s.rooms[r][i]).user_id != (#[trigger] s.rooms[r][j]).user_id by {
        assert(prior.rooms[r][i] == s.rooms[r][i]);
        assert(prior.rooms[r][j] == s.rooms[r][j]);
    }
    assert forall|r: Seq<char>, i: int|
        s.rooms.contains_key(r) && 0 <= i < s.rooms[r].len() implies {
        let u = (#[trigger] s.rooms[r][i]).user_id;
        s.user_rooms.contains_key(u) && s.user_rooms[u] == r
    } by {
        assert(prior.rooms[r][i] == s.rooms[r][i]);
    }
    assert forall|u: Seq<char>| s.user_rooms.contains_key(u) implies {
        let r = #[trigger] s.user_rooms[u];
        s.rooms.contains_key(r) && is_member(s.rooms[r], u)
    } by {
        assert(prior.user_rooms[u] == s.user_rooms[u]);
        assert(is_member(prior.rooms[prior.user_rooms[u]], u));
    }
}

/// The shared server state: user table, room directory, user-to-room
/// map, and the SFU router.
pub struct ServerState {
    users: StringHashMap<String>,
    rooms: StringHashMap<Room>,
    user_rooms: StringHashMap<String>,
    router: SfuRouter,
}

impl View for ServerState {
    type V = StateModel;

    closed spec fn view(&self) -> StateModel {
        StateModel {
            users: self.users@.map_values(|n: String| n@),
            rooms: self.rooms@.map_values(|r: Room| r@),
            user_rooms: self.user_rooms@.map_values(|r: String| r@),
            router: self.router@,
        }
    }
}

impl ServerState {
    /// Creates an empty server state.
    pub fn new() -> (r: Self)
        ensures
            r@.users == Map::<Seq<char>, Seq<char>>::empty(),
            r@.rooms == Map::<Seq<char>, Seq<ParticipantModel>>::empty(),
            r@.user_rooms == Map::<Seq<char>, Seq<char>>::empty(),
            r@.router.publishers == Map::<Seq<char>, crate::router::PublisherModel>::empty(),
            r@.router.consumers == Seq::<crate::router::ConsumerModel>::empty(),
            r@.wf(),
    {
        let r = ServerState {
            users: StringHashMap::new(),
            rooms: StringHashMap::new(),
            user_rooms: StringHashMap::new(),
            router: SfuRouter::new(),
        };
        proof {
            lemma_map_values_empty::<Seq<char>, String, Seq<char>>(|n: String| n@);
            lemma_map_values_empty::<Seq<char>, Room, Seq<ParticipantModel>>(|r: Room| r@);
        }
        r
    }

    /// True when this user is registered.
    pub fn users_contains(&self, user_id: &str) -> (b: bool)
        ensures
            b == self@.users.contains_key(user_id@),
    {
        self.users.contains_key(user_id)
    }

    /// The display name this user registered under.
    pub fn username_of(&self, user_id: &str) -> (r: Option<String>)
        ensures
            match r {
                Option::Some(n) => self@.users.contains_key(user_id@) && n@ == self@.users[user_id@],
                Option::None => !self@.users.contains_key(user_id@),
            },
    {
        match self.users.get(user_id) {
            Option::Some(n) => Option::Some(n.clone()),
            Option::None => Option::None,
        }
    }

    /// True when the directory holds this room.
    pub fn rooms_contains(&self, room_id: &str) -> (b: bool)
        ensures
            b == self@.rooms.contains_key(room_id@),
    {
        self.rooms.contains_key(room_id)
    }

    /// The room this user currently occupies, if any.
    pub fn user_room_of(&self, user_id: &str) -> (r: Option<String>)
        ensures
            match r {
                Option::Some(rid) => self@.user_rooms.contains_key(user_id@) && rid@
                    == self@.user_rooms[user_id@],
                Option::None => !self@.user_rooms.contains_key(user_id@),
            },
    {
        match self.user_rooms.get(user_id) {
            Option::Some(rid) => Option::Some(rid.clone()),
            Option::None => Option::None,
        }
    }

    /// The membership of this room, in join order.
    pub fn participants_of(&self, room_id: &str) -> (r: Option<Vec<ParticipantInfo>>)
        ensures
            match r {
                Option::Some(ps) => self@.rooms.contains_key(room_id@) && ps.deep_view()
                    == self@.rooms[room_id@],
                Option::None => !self@.rooms.contains_key(room_id@),
            },
    {
        match self.rooms.get(room_id) {
            Option::Some(room) => Option::Some(clone_participants(&room.participants)),
            Option::None => Option::None,
        }
    }

    /// Registers a user under a freshly minted identifier.
    pub fn users_insert(&mut self, user_id: String, username: String)
        requires
            old(self)@.wf(),
        ensures
            final(self)@.users == old(self)@.users.insert(user_id@, username@),
            final(self)@.rooms == old(self)@.rooms,
            final(self)@.user_rooms == old(self)@.user_rooms,
            final(self)@.router == old(self)@.router,
            final(self)@.wf(),
    {
        proof {
            lemma_map_values_insert(self.users@, |n: String| n@, user_id@, username);
        }
        self.users.insert(user_id, username);
    }

    /// Removes a user from the user table. The caller has already taken
    /// the user out of any room.
    pub fn users_remove(&mut self, user_id: &str)
        requires
            old(self)@.wf(),
            !old(self)@.user_rooms.contains_key(user_id@),
        ensures
            final(self)@.users == old(self)@.users.remove(user_id@),
            final(self)@.rooms == old(self)@.rooms,
            final(self)@.user_rooms == old(self)@.user_rooms,
            final(self)@.router == old(self)@.router,
            final(self)@.wf(),
    {
        proof {
            lemma_map_values_remove(self.users@, |n: String| n@, user_id@);
        }
        self.users.remove(user_id);
        proof {
            let s = self@;
            let prior = old(self)@;
            assert forall|r: Seq<char>, i: int|
                s.rooms.contains_key(r) && 0 <= i < s.rooms[r].len() implies s.users.contains_key(
                (#[trigger] s.rooms[r][i]).user_id,
            ) by {
                let u = s.rooms[r][i].user_id;
                assert(prior.rooms.contains_key(r));
                assert(prior.rooms[r][i] == s.rooms[r][i]);
                assert(prior.user_rooms.contains_key(u) && prior.user_rooms[u] == r);
                assert(u != user_id@);
                assert(s.users == prior.users.remove(user_id@));
            }
            assert forall|r: Seq<char>| s.rooms.contains_key(r) implies (
            #[trigger] s.rooms[r]).len() >= 1 by {
                assert(prior.rooms[r].len() >= 1);
            }
            assert forall|r: Seq<char>, i: int, j: int|
                s.rooms.contains_key(r) && 0 <= i < j < s.rooms[r].len() implies (
            #[trigger] s.rooms[r][i]).user_id != (#[trigger] s.rooms[r][j]).user_id by {
                assert(prior.rooms[r][i] == s.rooms[r][i]);
                assert(prior.rooms[r][j] == s.rooms[r][j]);
            }
            assert forall|r: Seq<char>, i: int|
                s.rooms.contains_key(r) && 0 <= i < s.rooms[r].len() implies {
                let u = (#[trigger] s.rooms[r][i]).user_id;
                s.user_rooms.contains_key(u) && s.user_rooms[u] == r
            } by {
                assert(prior.rooms[r][i] == s.rooms[r][i]);
            }
            assert forall|u: Seq<char>| s.user_rooms.contains_key(u) implies {
                let r = #[trigger] s.user_rooms[u];
                s.rooms.contains_key(r) && is_member(s.rooms[r], u)
            } by {
                assert(prior.user_rooms[u] == s.user_rooms[u]);
                assert(is_member(prior.rooms[prior.user_rooms[u]], u));
            }
        }
    }

    /// Creates a room holding exactly its creator, and places the creator
    /// in it.
    pub fn create_room_entry(&mut self, room_id: String, user_id: String, username: String)
        requires
            old(self)@.wf(),
            !old(self)@.rooms.contains_key(room_id@),
            !old(self)@.user_rooms.contains_key(user_id@),
            old(self)@.users.contains_key(user_id@),
        ensures
            final(self)@.rooms == old(self)@.rooms.insert(
                room_id@,
                seq![ParticipantModel { user_id: user_id@, username: username@ }],
            ),
            final(self)@.user_rooms == old(self)@.user_rooms.insert(user_id@, room_id@),
            final(self)@.users == old(self)@.users,
            final(self)@.router == old(self)@.router,
            final(self)@.wf(),
    {
        let mut participants: Vec<ParticipantInfo> = Vec::new();
        participants.push(ParticipantInfo { user_id: user_id.clone(), username });
        let room = Room { participants };
        proof {
            assert(room@ =~= seq![
                ParticipantModel { user_id: user_id@, username: room.participants[0].username@ },
            ]);
            lemma_map_values_insert(self.rooms@, |r: Room| r@, room_id@, room);
            lemma_map_values_insert(self.user_rooms@, |r: String| r@, user_id@, room_id);
        }
        let rid_for_user = room_id.clone();
        self.rooms.insert(room_id, room);
        self.user_rooms.insert(user_id, rid_for_user);
        proof {
            let s = self@;
            let prior = old(self)@;
            assert forall|u: Seq<char>| s.user_rooms.contains_key(u) implies {
                let r = #[trigger] s.user_rooms[u];
                s.rooms.contains_key(r) && is_member(s.rooms[r], u)
            } by {
                if s.user_rooms[u] == s.user_rooms[u] && prior.user_rooms.contains_key(u) {
                    assert(is_member(prior.rooms[prior.user_rooms[u]], u));
                } else {
                    assert(s.rooms[s.user_rooms[u]][0].user_id == u);
                }
            }
        }
    }

    /// Adds a user to an existing room, at the end of the membership
    /// order. Returns the post-join membership snapshot.
    pub fn join_room_entry(&mut self, room_id: &str, user_id: String, username: String) -> (ps: Vec<
        ParticipantInfo,
    >)
        requires
            old(self)@.wf(),
            old(self)@.rooms.contains_key(room_id@),
            !old(self)@.user_rooms.contains_key(user_id@),
            old(self)@.users.contains_key(user_id@),
        ensures
            final(self)@.rooms == old(self)@.rooms.insert(
                room_id@,
                old(self)@.rooms[room_id@].push(
                    ParticipantModel { user_id: user_id@, username: username@ },
                ),
            ),
            final(self)@.user_rooms == old(self)@.user_rooms.insert(user_id@, room_id@),
            final(self)@.users == old(self)@.users,
            final(self)@.router == old(self)@.router,
            ps.deep_view() == old(self)@.rooms[room_id@].push(
                ParticipantModel { user_id: user_id@, username: username@ },
            ),
            final(self)@.wf(),
    {
        let room = self.rooms.get(room_id).unwrap();
        let mut participants = clone_participants(&room.participants);
        participants.push(ParticipantInfo { user_id: user_id.clone(), username });
        proof {
            assert(participants.deep_view() =~= old(self)@.rooms[room_id@].push(
                ParticipantModel {
                    user_id: user_id@,
                    username: participants[participants.len() - 1].username@,
                },
            ));
        }
        let snapshot = clone_participants(&participants);
        let room = Room { participants };
        let rid = room_id.to_owned();
        let rid_for_user = room_id.to_owned();
        proof {
            lemma_map_values_insert(self.rooms@, |r: Room| r@, room_id@, room);
            lemma_map_values_insert(self.user_rooms@, |r: String| r@, user_id@, rid_for_user);
        }
        self.rooms.insert(rid, room);
        self.user_rooms.insert(user_id, rid_for_user);
        proof {
            self.lemma_join_wf(old(self)@, room_id@, user_id@, username@);
        }
        snapshot
    }

    /// After a join, the server invariants hold.
    proof fn lemma_join_wf(
        &self,
        prior: StateModel,
        room_id: Seq<char>,
        user_id: Seq<char>,
        username: Seq<char>,
    )
        requires
            prior.wf(),
            prior.rooms.contains_key(room_id),
            !prior.user_rooms.contains_key(user_id),
            prior.users.contains_key(user_id),
            self@.rooms == prior.rooms.insert(
                room_id,
                prior.rooms[room_id].push(ParticipantModel { user_id, username }),
            ),
            self@.user_rooms == prior.user_rooms.insert(user_id, room_id),
            self@.users == prior.users,
            self@.router == prior.router,
        ensures
            self@.wf(),
    {
        let s = self@;
        let joined = prior.rooms[room_id].push(ParticipantModel { user_id, username });
        assert forall|r: Seq<char>, i: int, j: int|
            s.rooms.contains_key(r) && 0 <= i < j < s.rooms[r].len() implies (
        #[trigger] s.rooms[r][i]).user_id != (#[trigger] s.rooms[r][j]).user_id by {
            if r == room_id {
                if j == joined.len() - 1 {
                    // the joiner was not yet placed, so it was no member
                    if s.rooms[r][i].user_id == user_id {
                        assert(prior.rooms[room_id][i] == joined[i]);
                        assert(prior.user_rooms.contains_key(user_id));
                    }
                } else {
                    assert(prior.rooms[room_id][i] == joined[i]);
                    assert(prior.rooms[room_id][j] == joined[j]);
                }
            }
        }
        assert forall|r: Seq<char>, i: int|
            s.rooms.contains_key(r) && 0 <= i < s.rooms[r].len() implies s.users.contains_key(
            (#[trigger] s.rooms[r][i]).user_id,
        ) by {
            if r == room_id && i < joined.len() - 1 {
                assert(prior.rooms[room_id][i] == joined[i]);
            }
        }
        assert forall|r: Seq<char>, i: int|
            s.rooms.contains_key(r) && 0 <= i < s.rooms[r].len() implies {
            let u = (#[trigger] s.rooms[r][i]).user_id;
            s.user_rooms.contains_key(u) && s.user_rooms[u] == r
        } by {
            if r == room_id {
                if i < joined.len() - 1 {
                    assert(prior.rooms[room_id][i] == joined[i]);
                    // a previous member of this room is not the joiner
                    assert(prior.user_rooms[joined[i].user_id] == room_id);
                }
            } else {
                assert(prior.rooms[r][i] == s.rooms[r][i]);
                assert(prior.user_rooms[s.rooms[r][i].user_id] == r);
            }
        }
        assert forall|u: Seq<char>| s.user_rooms.contains_key(u) implies {
            let r = #[trigger] s.user_rooms[u];
            s.rooms.contains_key(r) && is_member(s.rooms[r], u)
        } by {
            if u == user_id {
                assert(joined[joined.len() - 1].user_id == user_id);
                assert(is_member(joined, user_id));
            } else {
                let r = prior.user_rooms[u];
                assert(is_member(prior.rooms[r], u));
                if r == room_id {
                    let i = choose|i: int|
                        0 <= i < prior.rooms[r].len() && (#[trigger] prior.rooms[r][i]).user_id
                            == u;
                    assert(joined[i].user_id == u);
                    assert(is_member(joined, u));
                }
            }
        }
    }

    /// Takes a user out of the room it occupies. Returns the room
    /// identifier, the display name recorded in the membership, and the
    /// remaining membership snapshot; the room is destroyed when the last
    /// member leaves. Does nothing for an unroomed user.
    pub fn leave_room_entry(&mut self, user_id: &str) -> (r: Option<
        (String, String, Vec<ParticipantInfo>),
    >)
        requires
            old(self)@.wf(),
        ensures
            match r {
                Option::Some(out) => {
                    let prior = old(self)@;
                    let rid = prior.user_rooms[user_id@];
                    let remaining = without_member(prior.rooms[rid], user_id@);
                    &&& prior.user_rooms.contains_key(user_id@)
                    &&& out.0@ == rid
                    &&& out.1@ == member_username(prior.rooms[rid], user_id@)
                    &&& out.2.deep_view() == remaining
                    &&& final(self)@.user_rooms == prior.user_rooms.remove(user_id@)
                    &&& final(self)@.rooms == (if remaining.len() == 0 {
                        prior.rooms.remove(rid)
                    } else {
                        prior.rooms.insert(rid, remaining)
                    })
                    &&& final(self)@.users == prior.users
                    &&& final(self)@.router == prior.router
                },
                Option::None => !old(self)@.user_rooms.contains_key(user_id@) && final(self)@
                    == old(self)@,
            },
            final(self)@.wf(),
    {
        let room_id = match self.user_rooms.get(user_id) {
            Option::Some(rid) => rid.clone(),
            Option::None => {
                return Option::None;
            },
        };
        proof {
            lemma_map_values_remove(self.user_rooms@, |r: String| r@, user_id@);
        }
        self.user_rooms.remove(user_id);
        proof {
            assert(old(self)@.user_rooms[user_id@] == room_id@);
            assert(old(self)@.rooms.contains_key(room_id@));
        }
        let room = self.rooms.get(room_id.as_str()).unwrap();
        let ghost old_members = old(self)@.rooms[room_id@];
        let mut remaining: Vec<ParticipantInfo> = Vec::new();
        let mut username = String::new();
        let n = room.participants.len();
        proof {
            assert(room@ == old_members);
            assert(old_members.take(0) =~= Seq::<ParticipantModel>::empty());
            assert(remaining.deep_view() =~= without_member(
                old_members.take(0),
                user_id@,
            ));
        }
        for i in 0..n
            invariant
                n == room.participants.len(),
                room.participants.deep_view() == old_members,
                remaining.deep_view() == without_member(old_members.take(i as int), user_id@),
                username@ == member_username(old_members.take(i as int), user_id@),
        {
            let p = &room.participants[i];
            proof {
                assert(old_members.take(i + 1).drop_last() =~= old_members.take(i as int));
                assert(old_members.take(i + 1).last() == old_members[i as int]);
                assert(old_members[i as int] == p@);
            }
            if str_eq(p.user_id.as_str(), user_id) {
                username = p.username.clone();
            } else {
                remaining.push(
                    ParticipantInfo { user_id: p.user_id.clone(), username: p.username.clone() },
                );
                proof {
                    assert(remaining.deep_view() =~= without_member(
                        old_members.take(i + 1),
                        user_id@,
                    ));
                }
            }
        }
        proof {
            assert(old_members.take(n as int) =~= old_members);
        }
        let snapshot = clone_participants(&remaining);
        if remaining.len() == 0 {
            proof {
                lemma_map_values_remove(self.rooms@, |r: Room| r@, room_id@);
            }
            self.rooms.remove(room_id.as_str());
        } else {
            let new_room = Room { participants: remaining };
            proof {
                lemma_map_values_insert(self.rooms@, |r: Room| r@, room_id@, new_room);
            }
            let rid = room_id.clone();
            self.rooms.insert(rid, new_room);
        }
        proof {
            self.lemma_leave_wf(old(self)@, user_id@);
        }
        Option::Some((room_id, username, snapshot))
    }

    /// After a leave, the server invariants hold.
    proof fn lemma_leave_wf(&self, prior: StateModel, user_id: Seq<char>)
        requires
            prior.wf(),
            prior.user_rooms.contains_key(user_id),
            self@.user_rooms == prior.user_rooms.remove(user_id),
            self@.rooms == (if without_member(
                prior.rooms[prior.user_rooms[user_id]],
                user_id,
            ).len() == 0 {
                prior.rooms.remove(prior.user_rooms[user_id])
            } else {
                prior.rooms.insert(
                    prior.user_rooms[user_id],
                    without_member(prior.rooms[prior.user_rooms[user_id]], user_id),
                )
            }),
            self@.users == prior.users,
            self@.router == prior.router,
        ensures
            self@.wf(),
    {
        let s = self@;
        let rid = prior.user_rooms[user_id];
        let old_members = prior.rooms[rid];
        let remaining = without_member(old_members, user_id);
        lemma_without_member_sub(old_members, user_id);
        lemma_without_member_complete(old_members, user_id);
        lemma_without_member_distinct(old_members, user_id);
        assert forall|r: Seq<char>, i: int|
            s.rooms.contains_key(r) && 0 <= i < s.rooms[r].len() implies s.users.contains_key(
            (#[trigger] s.rooms[r][i]).user_id,
        ) by {
            if r == rid && remaining.len() != 0 {
                assert(old_members.contains(s.rooms[r][i]));
                let j = choose|j: int|
                    0 <= j < old_members.len() && old_members[j] == s.rooms[r][i];
                assert(prior.users.contains_key(old_members[j].user_id));
            }
        }
        assert forall|r: Seq<char>, i: int|
            s.rooms.contains_key(r) && 0 <= i < s.rooms[r].len() implies {
            let u = (#[trigger] s.rooms[r][i]).user_id;
            s.user_rooms.contains_key(u) && s.user_rooms[u] == r
        } by {
            if r == rid && remaining.len() != 0 {
                assert(old_members.contains(s.rooms[r][i]));
                let j = choose|j: int|
                    0 <= j < old_members.len() && old_members[j] == s.rooms[r][i];
                assert(prior.user_rooms[old_members[j].user_id] == rid);
                assert(s.rooms[r][i].user_id != user_id);
            }
        }
        assert forall|u: Seq<char>| s.user_rooms.contains_key(u) implies {
            let r = #[trigger] s.user_rooms[u];
            s.rooms.contains_key(r) && is_member(s.rooms[r], u)
        } by {
            let r = prior.user_rooms[u];
            assert(is_member(prior.rooms[r], u));
            if r == rid {
                let i = choose|i: int|
                    0 <= i < old_members.len() && (#[trigger] old_members[i]).user_id == u;
                assert(old_members[i].user_id != user_id);
                assert(remaining.contains(old_members[i]));
                assert(remaining.len() != 0);
                let j = choose|j: int| 0 <= j < remaining.len() && remaining[j] == old_members[i];
                assert(s.rooms[r][j].user_id == u);
                assert(is_member(s.rooms[r], u));
            }
        }
    }

    /// Read access to the SFU router registries.
    pub fn sfu(&self) -> (r: &SfuRouter)
        ensures
            r@ == self@.router,
    {
        &self.router
    }

    /// Registers a publisher for this user; see
    /// `SfuRouter::add_publisher`.
    pub fn add_publisher(&mut self, user_id: String, username: String)
        requires
            old(self)@.wf(),
            forall|i: int|
                0 <= i < old(self)@.router.consumers.len() ==> (
                #[trigger] old(self)@.router.consumers[i]).publisher_user_id != user_id@,
        ensures
            final(self)@.router.publishers == old(self)@.router.publishers.insert(
                user_id@,
                crate::router::PublisherModel {
                    user_id: user_id@,
                    username: username@,
                    track_id: Option::None,
                },
            ),
            final(self)@.router.consumers == old(self)@.router.consumers,
            final(self)@.users == old(self)@.users,
            final(self)@.rooms == old(self)@.rooms,
            final(self)@.user_rooms == old(self)@.user_rooms,
            final(self)@.wf(),
    {
        self.router.add_publisher(user_id, username);
        proof {
            lemma_wf_directory_unchanged(old(self)@, self@);
        }
    }

    /// Records a publisher's resolved inbound track; see
    /// `SfuRouter::resolve_publisher_track`.
    pub fn resolve_publisher_track(&mut self, user_id: &str, track_id: String) -> (updated: bool)
        requires
            old(self)@.wf(),
        ensures
            updated == old(self)@.router.publishers.contains_key(user_id@),
            updated ==> final(self)@.router.publishers == old(self)@.router.publishers.insert(
                user_id@,
                crate::router::PublisherModel {
                    user_id: old(self)@.router.publishers[user_id@].user_id,
                    username: old(self)@.router.publishers[user_id@].username,
                    track_id: Option::Some(track_id@),
                },
            ),
            !updated ==> final(self)@ == old(self)@,
            final(self)@.router.consumers == old(self)@.router.consumers,
            final(self)@.users == old(self)@.users,
            final(self)@.rooms == old(self)@.rooms,
            final(self)@.user_rooms == old(self)@.user_rooms,
            final(self)@.wf(),
    {
        let updated = self.router.resolve_publisher_track(user_id, track_id);
        proof {
            lemma_wf_directory_unchanged(old(self)@, self@);
        }
        updated
    }

    /// Removes this user's publisher and the consumers bound to it; see
    /// `SfuRouter::remove_publisher`.
    pub fn remove_publisher(&mut self, user_id: &str) -> (r: (bool, Vec<String>))
        requires
            old(self)@.wf(),
        ensures
            r.0 == old(self)@.router.publishers.contains_key(user_id@),
            final(self)@.router.publishers == old(self)@.router.publishers.remove(user_id@),
            final(self)@.router.consumers == crate::router::surviving_consumers(
                old(self)@.router.consumers,
                crate::router::RemovalKey::Publisher(user_id@),
            ),
            r.1.deep_view() == crate::router::removed_consumer_ids(
                old(self)@.router.consumers,
                crate::router::RemovalKey::Publisher(user_id@),
            ),
            final(self)@.users == old(self)@.users,
            final(self)@.rooms == old(self)@.rooms,
            final(self)@.user_rooms == old(self)@.user_rooms,
            final(self)@.wf(),
    {
        let r = self.router.remove_publisher(user_id);
        proof {
            lemma_wf_directory_unchanged(old(self)@, self@);
        }
        r
    }

    /// Registers a consumer; see `SfuRouter::add_consumer`.
    pub fn add_consumer(
        &mut self,
        publisher_user_id: &str,
        subscriber_user_id: &str,
        consumer_id: String,
    ) -> (r: Result<(), String>)
        requires
            old(self)@.wf(),
            !crate::router::has_consumer(old(self)@.router.consumers, consumer_id@),
        ensures
            match r {
                Ok(()) => {
                    &&& old(self)@.router.publishers.contains_key(publisher_user_id@)
                    &&& old(self)@.router.publishers[publisher_user_id@].track_id is Some
                    &&& final(self)@.router.consumers == old(self)@.router.consumers.push(
                        crate::router::ConsumerModel {
                            consumer_id: consumer_id@,
                            publisher_user_id: publisher_user_id@,
                            subscriber_user_id: subscriber_user_id@,
                        },
                    )
                    &&& final(self)@.router.publishers == old(self)@.router.publishers
                },
                Err(e) => final(self)@ == old(self)@ && (if !old(
                    self,
                )@.router.publishers.contains_key(publisher_user_id@) {
                    e@ == ("Publisher not found: ")@ + publisher_user_id@
                } else {
                    old(self)@.router.publishers[publisher_user_id@].track_id is None && e@ == (
                    "Publisher ")@ + publisher_user_id@ + (" has no audio track yet")@
                }),
            },
            final(self)@.users == old(self)@.users,
            final(self)@.rooms == old(self)@.rooms,
            final(self)@.user_rooms == old(self)@.user_rooms,
            final(self)@.wf(),
    {
        let r = self.router.add_consumer(publisher_user_id, subscriber_user_id, consumer_id);
        proof {
            lemma_wf_directory_unchanged(old(self)@, self@);
        }
        r
    }

    /// Removes every consumer of this subscriber; see
    /// `SfuRouter::remove_consumers_for_subscriber`.
    pub fn remove_consumers_for_subscriber(&mut self, subscriber_user_id: &str) -> (removed: Vec<
        String,
    >)
        requires
            old(self)@.wf(),
        ensures
            final(self)@.router.publishers == old(self)@.router.publishers,
            final(self)@.router.consumers == crate::router::surviving_consumers(
                old(self)@.router.consumers,
                crate::router::RemovalKey::Subscriber(subscriber_user_id@),
            ),
            removed.deep_view() == crate::router::removed_consumer_ids(
                old(self)@.router.consumers,
                crate::router::RemovalKey::Subscriber(subscriber_user_id@),
            ),
            final(self)@.users == old(self)@.users,
            final(self)@.rooms == old(self)@.rooms,
            final(self)@.user_rooms == old(self)@.user_rooms,
            final(self)@.wf(),
    {
        let removed = self.router.remove_consumers_for_subscriber(subscriber_user_id);
        proof {
            lemma_wf_directory_unchanged(old(self)@, self@);
        }
        removed
    }
}

} // verus!
