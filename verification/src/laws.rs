//! The library's laws: invariants of the server state and ordering,
//! fan-out, round-trip and boundary properties of the control steps, each
//! proved once over the spec-level transition functions that the session
//! operations are verified against.

use vstd::prelude::*;

use crate::messages::{DeliveryModel, MessageModel, ParticipantModel, TargetModel};
use crate::router::{removed_consumer_ids, removes, surviving_consumers, ConsumerModel, RemovalKey};
use crate::session::{dispatch_ok, fanout_new_publisher, fanout_user_joined, fanout_user_left,
    spec_disconnect, spec_join_room, spec_leave_room, spec_publish_audio_ok, spec_register,
    to_consumer_teardowns, Continuation, TeardownModel};
use crate::state::{is_member, without_member, StateModel};

verus! {

/// The deliveries among `out` addressed to the user `m`, in order.
pub open spec fn deliveries_to(out: Seq<DeliveryModel>, m: Seq<char>) -> Seq<DeliveryModel>
    decreases out.len(),
{
    if out.len() == 0 {
        Seq::empty()
    } else {
        let rest = deliveries_to(out.drop_last(), m);
        if out.last().target == TargetModel::User(m) {
            rest.push(out.last())
        } else {
            rest
        }
    }
}

/// Selecting one user's deliveries distributes over concatenation.
pub proof fn lemma_deliveries_to_concat(a: Seq<DeliveryModel>, b: Seq<DeliveryModel>, m: Seq<char>)
    ensures
        deliveries_to(a + b, m) == deliveries_to(a, m) + deliveries_to(b, m),
    decreases b.len(),
{
    if b.len() == 0 {
        assert(a + b =~= a);
        assert(deliveries_to(a, m) + deliveries_to(b, m) =~= deliveries_to(a, m));
    } else {
        lemma_deliveries_to_concat(a, b.drop_last(), m);
        assert((a + b).drop_last() =~= a + b.drop_last());
        assert((a + b).last() == b.last());
        if b.last().target == TargetModel::User(m) {
            assert(deliveries_to(a + b, m) =~= deliveries_to(a, m) + deliveries_to(b, m));
        }
    }
}

/// Every user listed in the user-to-room map, and every room member, is
/// a registered user.
pub proof fn lemma_membership_implies_registration(s: StateModel)
    requires
        s.wf(),
    ensures
        forall|u: Seq<char>| #[trigger] s.user_rooms.contains_key(u) ==> s.users.contains_key(u),
        forall|r: Seq<char>, i: int|
            s.rooms.contains_key(r) && 0 <= i < s.rooms[r].len() ==> s.users.contains_key(
                (#[trigger] s.rooms[r][i]).user_id,
            ),
{
    assert forall|u: Seq<char>| #[trigger] s.user_rooms.contains_key(u) implies s.users.contains_key(
        u,
    ) by {
        let r = s.user_rooms[u];
        assert(is_member(s.rooms[r], u));
        let i = choose|i: int| 0 <= i < s.rooms[r].len() && (#[trigger] s.rooms[r][i]).user_id == u;
        assert(s.users.contains_key(s.rooms[r][i].user_id));
    }
}

/// Every registered consumer references a publisher that exists and has
/// a resolved inbound track.
pub proof fn lemma_consumers_reference_live_publishers(s: StateModel)
    requires
        s.wf(),
    ensures
        forall|i: int|
            0 <= i < s.router.consumers.len() ==> {
                let c = #[trigger] s.router.consumers[i];
                s.router.publishers.contains_key(c.publisher_user_id)
                    && s.router.publishers[c.publisher_user_id].track_id is Some
            },
{
}

/// A room is present in the directory only while it has at least one
/// member.
pub proof fn lemma_rooms_nonempty(s: StateModel)
    requires
        s.wf(),
    ensures
        forall|r: Seq<char>| #[trigger] s.rooms.contains_key(r) ==> s.rooms[r].len() >= 1,
{
}

/// At most one publisher per user: two registry entries with the same
/// owning user are the same entry.
pub proof fn lemma_one_publisher_per_user(s: StateModel, u1: Seq<char>, u2: Seq<char>)
    requires
        s.wf(),
        s.router.publishers.contains_key(u1),
        s.router.publishers.contains_key(u2),
        s.router.publishers[u1].user_id == s.router.publishers[u2].user_id,
    ensures
        u1 == u2,
{
}

/// Every delivery of a `NewPublisher` fan-out goes to a listed member
/// other than the publisher and carries the `NewPublisher` record.
pub proof fn lemma_fanout_new_publisher_shape(
    members: Seq<ParticipantModel>,
    u: Seq<char>,
    name: Seq<char>,
)
    ensures
        forall|k: int|
            0 <= k < fanout_new_publisher(members, u, name).len() ==> (#[trigger] fanout_new_publisher(
                members,
                u,
                name,
            )[k]).message == (MessageModel::NewPublisher { user_id: u, username: name })
                && fanout_new_publisher(members, u, name)[k].target is User,
    decreases members.len(),
{
    if members.len() > 0 {
        lemma_fanout_new_publisher_shape(members.drop_last(), u, name);
        let all = fanout_new_publisher(members, u, name);
        let rest = fanout_new_publisher(members.drop_last(), u, name);
        assert forall|k: int| 0 <= k < all.len() implies (#[trigger] all[k]).message == (
        MessageModel::NewPublisher { user_id: u, username: name }) && all[k].target is User by {
            if members.last().user_id != u && k == all.len() - 1 {
            } else {
                assert(all[k] == rest[k]);
            }
        }
    }
}

/// Publish before announce: in the deliveries of a successful publish
/// step, `AudioPublished` to the publishing client comes strictly before
/// every `NewPublisher` announcement to its peers.
pub proof fn lemma_publish_before_announce(s: StateModel, u: Seq<char>)
    requires
        s.wf(),
    ensures
        ({
            let out = spec_publish_audio_ok(s, u);
            forall|i: int, j: int|
                0 <= i < out.len() && 0 <= j < out.len() && (#[trigger] out[i]).message
                    is AudioPublished && (#[trigger] out[j]).message is NewPublisher ==> i < j
        }),
{
    let out = spec_publish_audio_ok(s, u);
    if s.router.publishers.contains_key(u) && s.router.publishers[u].track_id is Some {
        if s.user_rooms.contains_key(u) {
            let fanout = fanout_new_publisher(s.rooms[s.user_rooms[u]], u, s.users[u]);
            lemma_fanout_new_publisher_shape(s.rooms[s.user_rooms[u]], u, s.users[u]);
            assert forall|i: int, j: int|
                0 <= i < out.len() && 0 <= j < out.len() && (#[trigger] out[i]).message
                    is AudioPublished && (#[trigger] out[j]).message is NewPublisher implies i
                < j by {
                if i >= 1 {
                    assert(out[i] == fanout[i - 1]);
                }
                if j >= 1 {
                } else {
                    assert(out[0].message is AudioPublished);
                }
            }
        }
    }
}

/// In a `UserLeft` fan-out over members with distinct identifiers, a
/// listed member receives the record exactly once and nobody else
/// receives anything.
pub proof fn lemma_fanout_user_left_counts(
    members: Seq<ParticipantModel>,
    u: Seq<char>,
    name: Seq<char>,
    m: Seq<char>,
)
    requires
        forall|i: int, j: int|
            0 <= i < j < members.len() ==> (#[trigger] members[i]).user_id != (
            #[trigger] members[j]).user_id,
    ensures
        deliveries_to(fanout_user_left(members, u, name), m).len() == (if is_member(members, m) {
            1int
        } else {
            0int
        }),
        forall|k: int|
            0 <= k < deliveries_to(fanout_user_left(members, u, name), m).len() ==> (
            #[trigger] deliveries_to(fanout_user_left(members, u, name), m)[k]).message == (
            MessageModel::UserLeft { username: name, user_id: u }),
    decreases members.len(),
{
    if members.len() == 0 {
        assert(!is_member(members, m));
    } else {
        let prefix = members.drop_last();
        assert(forall|i: int, j: int|
            0 <= i < j < prefix.len() ==> (#[trigger] prefix[i]).user_id != (
            #[trigger] prefix[j]).user_id) by {
            assert(forall|i: int| 0 <= i < prefix.len() ==> prefix[i] == members[i]);
        }
        lemma_fanout_user_left_counts(prefix, u, name, m);
        let all = fanout_user_left(members, u, name);
        let rest = fanout_user_left(prefix, u, name);
        assert(all == rest.push(
            DeliveryModel {
                target: TargetModel::User(members.last().user_id),
                message: MessageModel::UserLeft { username: name, user_id: u },
            },
        ));
        assert(all.drop_last() =~= rest);
        if members.last().user_id == m {
            // the last member is m, and by distinctness m is not among the prefix
            assert(!is_member(prefix, m)) by {
                if is_member(prefix, m) {
                    let i = choose|i: int|
                        0 <= i < prefix.len() && (#[trigger] prefix[i]).user_id == m;
                    assert(members[i].user_id == members[members.len() - 1].user_id);
                }
            }
            assert(is_member(members, m)) by {
                assert(members[members.len() - 1].user_id == m);
            }
        } else {
            assert(is_member(members, m) == is_member(prefix, m)) by {
                if is_member(members, m) {
                    let i = choose|i: int|
                        0 <= i < members.len() && (#[trigger] members[i]).user_id == m;
                    assert(prefix[i] == members[i]);
                }
                if is_member(prefix, m) {
                    let i = choose|i: int|
                        0 <= i < prefix.len() && (#[trigger] prefix[i]).user_id == m;
                    assert(members[i].user_id == m);
                }
            }
        }
    }
}

/// In a `UserJoined` fan-out over members with distinct identifiers, a
/// listed member receives the record exactly once and nobody else
/// receives anything.
pub proof fn lemma_fanout_user_joined_counts(
    members: Seq<ParticipantModel>,
    u: Seq<char>,
    name: Seq<char>,
    m: Seq<char>,
)
    requires
        forall|i: int, j: int|
            0 <= i < j < members.len() ==> (#[trigger] members[i]).user_id != (
            #[trigger] members[j]).user_id,
    ensures
        deliveries_to(fanout_user_joined(members, u, name), m).len() == (if is_member(
            members,
            m,
        ) {
            1int
        } else {
            0int
        }),
        forall|k: int|
            0 <= k < deliveries_to(fanout_user_joined(members, u, name), m).len() ==> (
            #[trigger] deliveries_to(fanout_user_joined(members, u, name), m)[k]).message == (
            MessageModel::UserJoined { username: name, user_id: u }),
    decreases members.len(),
{
    if members.len() == 0 {
        assert(!is_member(members, m));
    } else {
        let prefix = members.drop_last();
        assert(forall|i: int, j: int|
            0 <= i < j < prefix.len() ==> (#[trigger] prefix[i]).user_id != (
            #[trigger] prefix[j]).user_id) by {
            assert(forall|i: int| 0 <= i < prefix.len() ==> prefix[i] == members[i]);
        }
        lemma_fanout_user_joined_counts(prefix, u, name, m);
        let all = fanout_user_joined(members, u, name);
        let rest = fanout_user_joined(prefix, u, name);
        assert(all == rest.push(
            DeliveryModel {
                target: TargetModel::User(members.last().user_id),
                message: MessageModel::UserJoined { username: name, user_id: u },
            },
        ));
        assert(all.drop_last() =~= rest);
        if members.last().user_id == m {
            assert(!is_member(prefix, m)) by {
                if is_member(prefix, m) {
                    let i = choose|i: int|
                        0 <= i < prefix.len() && (#[trigger] prefix[i]).user_id == m;
                    assert(members[i].user_id == members[members.len() - 1].user_id);
                }
            }
            assert(is_member(members, m)) by {
                assert(members[members.len() - 1].user_id == m);
            }
        } else {
            assert(is_member(members, m) == is_member(prefix, m)) by {
                if is_member(members, m) {
                    let i = choose|i: int|
                        0 <= i < members.len() && (#[trigger] members[i]).user_id == m;
                    assert(prefix[i] == members[i]);
                }
                if is_member(prefix, m) {
                    let i = choose|i: int|
                        0 <= i < prefix.len() && (#[trigger] prefix[i]).user_id == m;
                    assert(members[i].user_id == m);
                }
            }
        }
    }
}

/// Leave fan-out: when a roomed user leaves, `UserLeft` is delivered to
/// every other member of the room it was in, exactly once, and to nobody
/// else.
pub proof fn lemma_leave_fanout_exactly_once(s: StateModel, u: Seq<char>, m: Seq<char>)
    requires
        s.wf(),
        s.user_rooms.contains_key(u),
    ensures
        ({
            let out = spec_leave_room(s, Option::Some(u)).out;
            let members = s.rooms[s.user_rooms[u]];
            &&& (is_member(members, m) && m != u ==> deliveries_to(out, m).len() == 1
                && deliveries_to(out, m)[0].message == (MessageModel::UserLeft {
                    username: member_username_of(s, u),
                    user_id: u,
                }))
            &&& (!is_member(members, m) ==> deliveries_to(out, m).len() == 0)
            &&& deliveries_to(out, u).len() == 0
        }),
{
    let rid = s.user_rooms[u];
    let members = s.rooms[rid];
    let name = crate::state::member_username(members, u);
    let remaining = without_member(members, u);
    let head = seq![crate::messages::to_client(MessageModel::RoomLeft)];
    let fanout = fanout_user_left(remaining, u, name);
    lemma_deliveries_to_concat(head, fanout, m);
    assert(deliveries_to(head, m) =~= Seq::<DeliveryModel>::empty()) by {
        assert(head.drop_last() =~= Seq::<DeliveryModel>::empty());
        assert(deliveries_to(Seq::<DeliveryModel>::empty(), m) =~= Seq::<DeliveryModel>::empty());
    }
    assert(deliveries_to(head + fanout, m) =~= deliveries_to(fanout, m));
    crate::state::lemma_without_member_distinct(members, u);
    crate::state::lemma_without_member_sub(members, u);
    crate::state::lemma_without_member_complete(members, u);
    lemma_fanout_user_left_counts(remaining, u, name, m);
    if is_member(members, m) && m != u {
        assert(is_member(remaining, m)) by {
            let i = choose|i: int| 0 <= i < members.len() && (#[trigger] members[i]).user_id == m;
            assert(remaining.contains(members[i]));
            let j = choose|j: int| 0 <= j < remaining.len() && remaining[j] == members[i];
            assert(remaining[j].user_id == m);
        }
    }
    if !is_member(members, m) {
        assert(!is_member(remaining, m)) by {
            if is_member(remaining, m) {
                let i = choose|i: int|
                    0 <= i < remaining.len() && (#[trigger] remaining[i]).user_id == m;
                assert(members.contains(remaining[i]));
                let j = choose|j: int| 0 <= j < members.len() && members[j] == remaining[i];
                assert(members[j].user_id == m);
            }
        }
    }
    lemma_deliveries_to_concat(head, fanout, u);
    assert(deliveries_to(head, u) =~= Seq::<DeliveryModel>::empty()) by {
        assert(head.drop_last() =~= Seq::<DeliveryModel>::empty());
        assert(deliveries_to(Seq::<DeliveryModel>::empty(), u) =~= Seq::<DeliveryModel>::empty());
    }
    assert(deliveries_to(head + fanout, u) =~= deliveries_to(fanout, u));
    lemma_fanout_user_left_counts(remaining, u, name, u);
    assert(!is_member(remaining, u)) by {
        if is_member(remaining, u) {
            let i = choose|i: int|
                0 <= i < remaining.len() && (#[trigger] remaining[i]).user_id == u;
        }
    }
}

/// The display name under which a user's room lists it.
pub open spec fn member_username_of(s: StateModel, u: Seq<char>) -> Seq<char> {
    crate::state::member_username(s.rooms[s.user_rooms[u]], u)
}

/// Join atomicity: the joiner's reply lists every member already present
/// and the joiner itself, in order, and each already-present member
/// receives exactly one `UserJoined` for the joiner.
pub proof fn lemma_join_atomicity(s: StateModel, u: Seq<char>, room_id: Seq<char>, m: Seq<char>)
    requires
        s.wf(),
        s.users.contains_key(u),
        !s.user_rooms.contains_key(u),
        s.rooms.contains_key(room_id),
    ensures
        ({
            let step = spec_join_room(s, Option::Some(u), room_id);
            let members = s.rooms[room_id];
            &&& step.out.len() >= 1
            &&& step.out[0].target is Client
            &&& step.out[0].message == (MessageModel::RoomJoined {
                room_id,
                participants: members.push(
                    ParticipantModel { user_id: u, username: s.users[u] },
                ),
            })
            &&& (is_member(members, m) ==> deliveries_to(step.out, m).len() == 1 && deliveries_to(
                step.out,
                m,
            )[0].message == (MessageModel::UserJoined { username: s.users[u], user_id: u }))
            &&& (!is_member(members, m) && m != u ==> deliveries_to(step.out, m).len() == 0)
        }),
{
    let step = spec_join_room(s, Option::Some(u), room_id);
    let members = s.rooms[room_id];
    let p = ParticipantModel { user_id: u, username: s.users[u] };
    let head = seq![
        crate::messages::to_client(
            MessageModel::RoomJoined { room_id, participants: members.push(p) },
        ),
    ];
    let fanout = fanout_user_joined(members, u, s.users[u]);
    assert(step.out == head + fanout);
    assert(step.out[0] == head[0]);
    lemma_deliveries_to_concat(head, fanout, m);
    assert(deliveries_to(head, m) =~= Seq::<DeliveryModel>::empty()) by {
        assert(head.drop_last() =~= Seq::<DeliveryModel>::empty());
        assert(deliveries_to(Seq::<DeliveryModel>::empty(), m) =~= Seq::<DeliveryModel>::empty());
    }
    assert(deliveries_to(head + fanout, m) =~= deliveries_to(fanout, m));
    lemma_fanout_user_joined_counts(members, u, s.users[u], m);
}

/// A disconnected user is gone: absent from the user table and from
/// every room's membership; registering again under a fresh identifier
/// does not bring the old identity back.
pub proof fn lemma_disconnect_then_register_fresh(
    s: StateModel,
    u: Seq<char>,
    name: Seq<char>,
    fresh: Seq<char>,
)
    requires
        s.wf(),
        fresh != u,
    ensures
        ({
            let d = spec_disconnect(s, Option::Some(u));
            let r = spec_register(d.state, Option::None, name, fresh);
            &&& !d.state.users.contains_key(u)
            &&& forall|rid: Seq<char>| #[trigger]
                d.state.rooms.contains_key(rid) ==> !is_member(d.state.rooms[rid], u)
            &&& !r.state.users.contains_key(u)
            &&& forall|rid: Seq<char>| #[trigger]
                r.state.rooms.contains_key(rid) ==> !is_member(r.state.rooms[rid], u)
        }),
{
    let d = spec_disconnect(s, Option::Some(u));
    assert forall|rid: Seq<char>| #[trigger] d.state.rooms.contains_key(rid) implies !is_member(
        d.state.rooms[rid],
        u,
    ) by {
        if s.user_rooms.contains_key(u) {
            let own = s.user_rooms[u];
            if rid == own {
                let remaining = without_member(s.rooms[own], u);
                crate::state::lemma_without_member_sub(s.rooms[own], u);
                if is_member(remaining, u) {
                    let i = choose|i: int|
                        0 <= i < remaining.len() && (#[trigger] remaining[i]).user_id == u;
                }
            } else {
                if is_member(s.rooms[rid], u) {
                    let i = choose|i: int|
                        0 <= i < s.rooms[rid].len() && (#[trigger] s.rooms[rid][i]).user_id == u;
                    assert(s.user_rooms[u] == rid);
                }
            }
        } else {
            if is_member(s.rooms[rid], u) {
                let i = choose|i: int|
                    0 <= i < s.rooms[rid].len() && (#[trigger] s.rooms[rid][i]).user_id == u;
                assert(s.user_rooms.contains_key(u));
            }
        }
    }
    let r = spec_register(d.state, Option::None, name, fresh);
    assert(r.state.rooms == d.state.rooms);
}

/// Leaving and rejoining the same room puts the user back at the end of
/// the membership that remained. The one excluded case: the sole member
/// of a room cannot rejoin it, because the room is destroyed the moment
/// it empties.
pub proof fn lemma_leave_then_rejoin(s: StateModel, u: Seq<char>)
    requires
        s.wf(),
        s.user_rooms.contains_key(u),
        without_member(s.rooms[s.user_rooms[u]], u).len() > 0,
    ensures
        ({
            let rid = s.user_rooms[u];
            let after_leave = spec_leave_room(s, Option::Some(u)).state;
            let after_join = spec_join_room(after_leave, Option::Some(u), rid).state;
            &&& after_join.rooms.contains_key(rid)
            &&& after_join.rooms[rid] == without_member(s.rooms[rid], u).push(
                ParticipantModel { user_id: u, username: s.users[u] },
            )
            &&& is_member(after_join.rooms[rid], u)
        }),
{
    let rid = s.user_rooms[u];
    let members = s.rooms[rid];
    let remaining = without_member(members, u);
    let after_leave = spec_leave_room(s, Option::Some(u)).state;
    assert(s.users.contains_key(u)) by {
        assert(is_member(members, u));
        let i = choose|i: int| 0 <= i < members.len() && (#[trigger] members[i]).user_id == u;
        assert(s.users.contains_key(members[i].user_id));
    }
    assert(after_leave.rooms.contains_key(rid));
    assert(after_leave.users == s.users);
    assert(!after_leave.user_rooms.contains_key(u));
    let after_join = spec_join_room(after_leave, Option::Some(u), rid).state;
    assert(after_join.rooms[rid] == remaining.push(
        ParticipantModel { user_id: u, username: s.users[u] },
    ));
    assert(is_member(after_join.rooms[rid], u)) by {
        assert(after_join.rooms[rid][after_join.rooms[rid].len() - 1].user_id == u);
    }
}

/// Repeated candidate records with the same payload are treated alike:
/// neither call changes any state, both produce no reply, and both make
/// the same forwarding decision. No duplicate detection exists.
pub proof fn lemma_repeated_candidate_accepted(
    pre: StateModel,
    uid: Option<Seq<char>>,
    msg: crate::messages::ClientMessage,
    mid: StateModel,
    mid_uid: Option<Seq<char>>,
    out1: Seq<DeliveryModel>,
    next1: Continuation,
    post: StateModel,
    post_uid: Option<Seq<char>>,
    out2: Seq<DeliveryModel>,
    next2: Continuation,
)
    requires
        msg is PublisherIceCandidate || msg is ConsumerIceCandidate,
        dispatch_ok(pre, uid, msg, mid, mid_uid, out1, next1),
        dispatch_ok(mid, mid_uid, msg, post, post_uid, out2, next2),
    ensures
        mid == pre && post == pre,
        mid_uid == uid && post_uid == uid,
        out1 == Seq::<DeliveryModel>::empty() && out2 == Seq::<DeliveryModel>::empty(),
        next1 is Done <==> next2 is Done,
{
}

/// Joining an unknown room produces a single error reply to the client
/// and changes nothing.
pub proof fn lemma_join_unknown_room(s: StateModel, sess: Option<Seq<char>>, room_id: Seq<char>)
    requires
        !s.rooms.contains_key(room_id),
    ensures
        spec_join_room(s, sess, room_id).state == s,
        spec_join_room(s, sess, room_id).session == sess,
        spec_join_room(s, sess, room_id).out.len() == 1,
        spec_join_room(s, sess, room_id).out[0].target is Client,
        spec_join_room(s, sess, room_id).out[0].message is Error,
{
}

/// Asking to consume a publisher whose track has not resolved — or one
/// that does not exist — is refused with an error and registers nothing.
pub proof fn lemma_consumer_requires_track(
    pre: StateModel,
    uid: Option<Seq<char>>,
    msg: crate::messages::ClientMessage,
    post: StateModel,
    post_uid: Option<Seq<char>>,
    outputs: Seq<DeliveryModel>,
    next: Continuation,
)
    requires
        uid is Some,
        msg matches crate::messages::ClientMessage::CreateConsumer { publisher_user_id } && (
        !pre.router.publishers.contains_key(publisher_user_id@)
            || pre.router.publishers[publisher_user_id@].track_id is None),
        dispatch_ok(pre, uid, msg, post, post_uid, outputs, next),
    ensures
        post == pre,
        next is Done,
        outputs.len() == 1,
        outputs[0].target is Client,
        outputs[0].message is Error,
{
}

/// The identifier of every consumer a removal pass drops is listed.
pub proof fn lemma_removed_ids_complete(cs: Seq<ConsumerModel>, key: RemovalKey)
    ensures
        forall|i: int|
            0 <= i < cs.len() && removes(key, #[trigger] cs[i]) ==> removed_consumer_ids(
                cs,
                key,
            ).contains(cs[i].consumer_id),
    decreases cs.len(),
{
    if cs.len() > 0 {
        lemma_removed_ids_complete(cs.drop_last(), key);
        let ids = removed_consumer_ids(cs, key);
        let rest = removed_consumer_ids(cs.drop_last(), key);
        assert forall|i: int|
            0 <= i < cs.len() && removes(key, #[trigger] cs[i]) implies ids.contains(
            cs[i].consumer_id,
        ) by {
            if i == cs.len() - 1 {
                assert(ids.last() == cs.last().consumer_id);
                assert(ids.contains(ids.last()));
            } else {
                assert(cs.drop_last()[i] == cs[i]);
                assert(rest.contains(cs[i].consumer_id));
                let j = choose|j: int| 0 <= j < rest.len() && rest[j] == cs[i].consumer_id;
                if removes(key, cs.last()) {
                    assert(ids[j] == rest[j]);
                }
                assert(ids.contains(cs[i].consumer_id));
            }
        }
    }
}

/// Every listed teardown identifier appears as a consumer teardown.
pub proof fn lemma_teardowns_contain_ids(ids: Seq<Seq<char>>, c: Seq<char>)
    requires
        ids.contains(c),
    ensures
        to_consumer_teardowns(ids).contains(TeardownModel::Consumer(c)),
    decreases ids.len(),
{
    let tds = to_consumer_teardowns(ids);
    let i = choose|i: int| 0 <= i < ids.len() && ids[i] == c;
    if i == ids.len() - 1 {
        assert(tds.last() == TeardownModel::Consumer(c));
        assert(tds.contains(tds.last()));
    } else {
        assert(ids.drop_last()[i] == c);
        assert(ids.drop_last().contains(c));
        lemma_teardowns_contain_ids(ids.drop_last(), c);
        let rest = to_consumer_teardowns(ids.drop_last());
        let j = choose|j: int| 0 <= j < rest.len() && rest[j] == TeardownModel::Consumer(c);
        assert(tds[j] == rest[j]);
        assert(tds.contains(TeardownModel::Consumer(c)));
    }
}

/// Disconnecting a user clears the registries of everything it owned:
/// its publisher entry, every consumer bound to that publisher, and
/// every consumer it subscribed with — and every one of those consumers
/// is named among the transports to close.
pub proof fn lemma_disconnect_clears_consumers(s: StateModel, u: Seq<char>)
    requires
        s.wf(),
    ensures
        ({
            let d = spec_disconnect(s, Option::Some(u));
            &&& !d.state.router.publishers.contains_key(u)
            &&& forall|i: int|
                0 <= i < d.state.router.consumers.len() ==> (
                #[trigger] d.state.router.consumers[i]).publisher_user_id != u
                    && d.state.router.consumers[i].subscriber_user_id != u
            &&& forall|i: int|
                0 <= i < s.router.consumers.len() && ((#[trigger] s.router.consumers[i]).publisher_user_id
                    == u || s.router.consumers[i].subscriber_user_id == u)
                    ==> d.teardowns.contains(
                    TeardownModel::Consumer(s.router.consumers[i].consumer_id),
                )
        }),
{
    let d = spec_disconnect(s, Option::Some(u));
    let key1 = RemovalKey::Publisher(u);
    let key2 = RemovalKey::Subscriber(u);
    let cons1 = surviving_consumers(s.router.consumers, key1);
    let cons2 = surviving_consumers(cons1, key2);
    crate::router::lemma_surviving_consumers_sub(s.router.consumers, key1);
    crate::router::lemma_surviving_consumers_sub(cons1, key2);
    assert forall|i: int| 0 <= i < cons2.len() implies (#[trigger] cons2[i]).publisher_user_id != u
        && cons2[i].subscriber_user_id != u by {
        assert(cons1.contains(cons2[i]));
        let j = choose|j: int| 0 <= j < cons1.len() && cons1[j] == cons2[i];
        assert(!removes(key1, cons1[j]));
    }
    let td_head = if s.router.publishers.contains_key(u) {
        seq![TeardownModel::Publisher(u)]
    } else {
        Seq::<TeardownModel>::empty()
    };
    let td1 = to_consumer_teardowns(removed_consumer_ids(s.router.consumers, key1));
    let td2 = to_consumer_teardowns(removed_consumer_ids(cons1, key2));
    assert(d.teardowns == (td_head + td1) + td2);
    lemma_removed_ids_complete(s.router.consumers, key1);
    lemma_removed_ids_complete(cons1, key2);
    crate::router::lemma_surviving_consumers_complete(s.router.consumers, key1);
    assert forall|i: int|
        0 <= i < s.router.consumers.len() && ((#[trigger] s.router.consumers[i]).publisher_user_id
            == u || s.router.consumers[i].subscriber_user_id == u) implies d.teardowns.contains(
        TeardownModel::Consumer(s.router.consumers[i].consumer_id),
    ) by {
        let c = s.router.consumers[i];
        if c.publisher_user_id == u {
            assert(removes(key1, c));
            assert(removed_consumer_ids(s.router.consumers, key1).contains(c.consumer_id));
            lemma_teardowns_contain_ids(
                removed_consumer_ids(s.router.consumers, key1),
                c.consumer_id,
            );
            let j = choose|j: int| 0 <= j < td1.len() && td1[j] == TeardownModel::Consumer(
                c.consumer_id,
            );
            assert(d.teardowns[td_head.len() + j] == TeardownModel::Consumer(c.consumer_id));
        } else {
            assert(!removes(key1, c));
            assert(cons1.contains(c));
            let j = choose|j: int| 0 <= j < cons1.len() && cons1[j] == c;
            assert(removes(key2, cons1[j]));
            assert(removed_consumer_ids(cons1, key2).contains(c.consumer_id));
            lemma_teardowns_contain_ids(removed_consumer_ids(cons1, key2), c.consumer_id);
            let k = choose|k: int| 0 <= k < td2.len() && td2[k] == TeardownModel::Consumer(
                c.consumer_id,
            );
            assert(d.teardowns[td_head.len() + td1.len() + k] == TeardownModel::Consumer(
                c.consumer_id,
            ));
        }
    }
}

} // verus!
