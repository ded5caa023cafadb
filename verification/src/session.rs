//! The session controller: one client's control dialogue. Each inbound
//! control message becomes registry mutations plus a sequence of outbound
//! deliveries — a reply to the client and, for room-scoped events, a
//! fan-out to the other members. Operations that need media-transport
//! work are split in two: a check step that decides whether the transport
//! work may proceed, and a finish step that applies its outcome; the
//! embedding program performs the transport work in between and runs the
//! delivery of outbound messages.
//!
//! Every operation's contract equates the new state and the produced
//! deliveries with a spec-level transition function, so the ordering and
//! fan-out laws can be stated and proved once over those functions.

use vstd::prelude::*;

use crate::ids::fresh_id;
use crate::messages::{ClientMessage, Delivery, DeliveryModel, MessageModel, ParticipantInfo,
    ParticipantModel, SendTarget, ServerMessage, TargetModel, error_out, error_to_client, reply,
    to_client};
use crate::state::{ServerState, StateModel, member_username, without_member};
use crate::util::{lemma_vec_deep_view, str_eq};

verus! {

/// One client's control session: the identity it registered under, if
/// any. The connection itself is owned by the embedding program.
pub struct Session {
    pub user_id: Option<String>,
}

/// The session's registered identity, as a spec value.
pub open spec fn spec_uid(sess: Session) -> Option<Seq<char>> {
    match sess.user_id {
        Option::Some(u) => Option::Some(u@),
        Option::None => Option::None,
    }
}

/// A session's identity, when registered, names a live user entry.
pub open spec fn session_ok(sess: Session, s: StateModel) -> bool {
    match sess.user_id {
        Option::Some(u) => s.users.contains_key(u@),
        Option::None => true,
    }
}

/// What one control step produced: the state afterwards, the session
/// identity afterwards, and the outbound deliveries in order.
#[verifier::ext_equal]
pub struct StepModel {
    pub state: StateModel,
    pub session: Option<Seq<char>>,
    pub out: Seq<DeliveryModel>,
}

/// One delivery of `UserJoined` to each listed member, in membership
/// order.
pub open spec fn fanout_user_joined(
    members: Seq<ParticipantModel>,
    user_id: Seq<char>,
    username: Seq<char>,
) -> Seq<DeliveryModel>
    decreases members.len(),
{
    if members.len() == 0 {
        Seq::empty()
    } else {
        fanout_user_joined(members.drop_last(), user_id, username).push(
            DeliveryModel {
                target: TargetModel::User(members.last().user_id),
                message: MessageModel::UserJoined { username, user_id },
            },
        )
    }
}

/// One delivery of `UserLeft` to each listed member, in membership order.
pub open spec fn fanout_user_left(
    members: Seq<ParticipantModel>,
    user_id: Seq<char>,
    username: Seq<char>,
) -> Seq<DeliveryModel>
    decreases members.len(),
{
    if members.len() == 0 {
        Seq::empty()
    } else {
        fanout_user_left(members.drop_last(), user_id, username).push(
            DeliveryModel {
                target: TargetModel::User(members.last().user_id),
                message: MessageModel::UserLeft { username, user_id },
            },
        )
    }
}

/// One delivery of `NewPublisher` to each listed member other than the
/// publisher, in membership order.
pub open spec fn fanout_new_publisher(
    members: Seq<ParticipantModel>,
    user_id: Seq<char>,
    username: Seq<char>,
) -> Seq<DeliveryModel>
    decreases members.len(),
{
    if members.len() == 0 {
        Seq::empty()
    } else {
        let rest = fanout_new_publisher(members.drop_last(), user_id, username);
        if members.last().user_id == user_id {
            rest
        } else {
            rest.push(
                DeliveryModel {
                    target: TargetModel::User(members.last().user_id),
                    message: MessageModel::NewPublisher { user_id, username },
                },
            )
        }
    }
}

/// The registration step: an unregistered session gains a fresh
/// identity and the user table gains its entry; a registered session is
/// refused.
pub open spec fn spec_register(
    s: StateModel,
    sess: Option<Seq<char>>,
    username: Seq<char>,
    fresh: Seq<char>,
) -> StepModel {
    match sess {
        Option::Some(_) => StepModel {
            state: s,
            session: sess,
            out: seq![error_to_client(("Already registered")@)],
        },
        Option::None => StepModel {
            state: StateModel { users: s.users.insert(fresh, username), ..s },
            session: Option::Some(fresh),
            out: seq![to_client(MessageModel::Registered { user_id: fresh })],
        },
    }
}

/// The room-creation step: a registered, unroomed user gains a fresh
/// room holding only itself and is placed in it.
pub open spec fn spec_create_room(s: StateModel, sess: Option<Seq<char>>, fresh: Seq<char>) -> StepModel {
    match sess {
        Option::None => StepModel {
            state: s,
            session: sess,
            out: seq![error_to_client(("Not registered")@)],
        },
        Option::Some(u) => {
            if s.user_rooms.contains_key(u) {
                StepModel {
                    state: s,
                    session: sess,
                    out: seq![error_to_client(("Already in a room")@)],
                }
            } else {
                let p = ParticipantModel { user_id: u, username: s.users[u] };
                StepModel {
                    state: StateModel {
                        rooms: s.rooms.insert(fresh, seq![p]),
                        user_rooms: s.user_rooms.insert(u, fresh),
                        ..s
                    },
                    session: sess,
                    out: seq![
                        to_client(
                            MessageModel::RoomJoined { room_id: fresh, participants: seq![p] },
                        ),
                    ],
                }
            }
        },
    }
}

/// The join step: a registered, unroomed user enters an existing room at
/// the end of its membership order; the reply carries the post-join
/// membership and every prior member is notified once.
pub open spec fn spec_join_room(s: StateModel, sess: Option<Seq<char>>, room_id: Seq<char>) -> StepModel {
    match sess {
        Option::None => StepModel {
            state: s,
            session: sess,
            out: seq![error_to_client(("Not registered")@)],
        },
        Option::Some(u) => {
            if s.user_rooms.contains_key(u) {
                StepModel {
                    state: s,
                    session: sess,
                    out: seq![error_to_client(("Already in a room")@)],
                }
            } else if !s.rooms.contains_key(room_id) {
                StepModel {
                    state: s,
                    session: sess,
                    out: seq![error_to_client(("Room not found")@)],
                }
            } else {
                let p = ParticipantModel { user_id: u, username: s.users[u] };
                let joined = s.rooms[room_id].push(p);
                StepModel {
                    state: StateModel {
                        rooms: s.rooms.insert(room_id, joined),
                        user_rooms: s.user_rooms.insert(u, room_id),
                        ..s
                    },
                    session: sess,
                    out: seq![
                        to_client(MessageModel::RoomJoined { room_id, participants: joined }),
                    ] + fanout_user_joined(s.rooms[room_id], u, s.users[u]),
                }
            }
        },
    }
}

/// The leave step: a roomed user leaves its room, the room is destroyed
/// when its last member leaves, and every remaining member is notified
/// once. Media peers are deliberately left alone: only a disconnect
/// tears them down.
pub open spec fn spec_leave_room(s: StateModel, sess: Option<Seq<char>>) -> StepModel {
    match sess {
        Option::None => StepModel {
            state: s,
            session: sess,
            out: seq![error_to_client(("Not registered")@)],
        },
        Option::Some(u) => {
            if !s.user_rooms.contains_key(u) {
                StepModel {
                    state: s,
                    session: sess,
                    out: seq![error_to_client(("Not in a room")@)],
                }
            } else {
                let rid = s.user_rooms[u];
                let name = member_username(s.rooms[rid], u);
                let remaining = without_member(s.rooms[rid], u);
                StepModel {
                    state: StateModel {
                        rooms: if remaining.len() == 0 {
                            s.rooms.remove(rid)
                        } else {
                            s.rooms.insert(rid, remaining)
                        },
                        user_rooms: s.user_rooms.remove(u),
                        ..s
                    },
                    session: sess,
                    out: seq![to_client(MessageModel::RoomLeft)] + fanout_user_left(
                        remaining,
                        u,
                        name,
                    ),
                }
            }
        },
    }
}

/// Builds the `UserJoined` fan-out to the given members.
fn build_user_joined_fanout(
    members: &Vec<ParticipantInfo>,
    user_id: &str,
    username: &str,
) -> (out: Vec<Delivery>)
    ensures
        out.deep_view() == fanout_user_joined(members.deep_view(), user_id@, username@),
{
    let ghost target = fanout_user_joined(members.deep_view(), user_id@, username@);
    let mut out: Vec<Delivery> = Vec::new();
    let n = members.len();
    for i in 0..n
        invariant
            n == members.len(),
            out.deep_view() == fanout_user_joined(
                members.deep_view().take(i as int),
                user_id@,
                username@,
            ),
    {
        proof {
            broadcast use lemma_vec_deep_view;

            assert(members.deep_view().take(i + 1).drop_last() =~= members.deep_view().take(
                i as int,
            ));
            assert(members.deep_view().take(i + 1).last() == members.deep_view()[i as int]);
            assert(members.deep_view()[i as int] == members[i as int]@);
        }
        let m = &members[i];
        out.push(
            Delivery {
                target: SendTarget::User(m.user_id.clone()),
                message: ServerMessage::UserJoined {
                    username: username.to_owned(),
                    user_id: user_id.to_owned(),
                },
            },
        );
        proof {
            assert(out.deep_view() =~= fanout_user_joined(
                members.deep_view().take(i + 1),
                user_id@,
                username@,
            ));
        }
    }
    proof {
        assert(members.deep_view().take(n as int) =~= members.deep_view());
    }
    out
}

/// Builds the `UserLeft` fan-out to the given members.
fn build_user_left_fanout(members: &Vec<ParticipantInfo>, user_id: &str, username: &str) -> (out:
    Vec<Delivery>)
    ensures
        out.deep_view() == fanout_user_left(members.deep_view(), user_id@, username@),
{
    let mut out: Vec<Delivery> = Vec::new();
    let n = members.len();
    for i in 0..n
        invariant
            n == members.len(),
            out.deep_view() == fanout_user_left(
                members.deep_view().take(i as int),
                user_id@,
                username@,
            ),
    {
        proof {
            broadcast use lemma_vec_deep_view;

            assert(members.deep_view().take(i + 1).drop_last() =~= members.deep_view().take(
                i as int,
            ));
            assert(members.deep_view().take(i + 1).last() == members.deep_view()[i as int]);
            assert(members.deep_view()[i as int] == members[i as int]@);
        }
        let m = &members[i];
        out.push(
            Delivery {
                target: SendTarget::User(m.user_id.clone()),
                message: ServerMessage::UserLeft {
                    username: username.to_owned(),
                    user_id: user_id.to_owned(),
                },
            },
        );
        proof {
            assert(out.deep_view() =~= fanout_user_left(
                members.deep_view().take(i + 1),
                user_id@,
                username@,
            ));
        }
    }
    proof {
        assert(members.deep_view().take(n as int) =~= members.deep_view());
    }
    out
}

impl Session {
    /// A fresh, unregistered session.
    pub fn new() -> (r: Session)
        ensures
            r.user_id is None,
    {
        Session { user_id: Option::None }
    }

    /// Registers this session under a freshly minted user identifier and
    /// answers with it; a session that is already registered is refused.
    pub fn register(&mut self, state: &mut ServerState, username: String, new_user_id: String) -> (
        out: Vec<Delivery>)
        requires
            old(state)@.wf(),
            session_ok(*old(self), old(state)@),
            !old(state)@.users.contains_key(new_user_id@),
        ensures
            ({
                let step = spec_register(
                    old(state)@,
                    spec_uid(*old(self)),
                    username@,
                    new_user_id@,
                );
                &&& final(state)@ == step.state
                &&& spec_uid(*final(self)) == step.session
                &&& out.deep_view() == step.out
            }),
            final(state)@.wf(),
            session_ok(*final(self), final(state)@),
    {
        if self.user_id.is_some() {
            let out = error_out(String::from_str("Already registered"));
            proof {
                assert(out.deep_view() =~= spec_register(
                    old(state)@,
                    spec_uid(*old(self)),
                    username@,
                    new_user_id@,
                ).out);
            }
            return out;
        }
        let reply_id = new_user_id.clone();
        state.users_insert(new_user_id.clone(), username);
        self.user_id = Option::Some(new_user_id);
        let mut out: Vec<Delivery> = Vec::new();
        out.push(reply(ServerMessage::Registered { user_id: reply_id }));
        proof {
            assert(out.deep_view() =~= spec_register(
                old(state)@,
                spec_uid(*old(self)),
                username@,
                new_user_id@,
            ).out);
        }
        out
    }

    /// Creates a room under a freshly minted identifier, with this
    /// session's user as its only member, and answers with the room and
    /// its membership.
    pub fn create_room(&self, state: &mut ServerState, new_room_id: String) -> (out: Vec<Delivery>)
        requires
            old(state)@.wf(),
            session_ok(*self, old(state)@),
            !old(state)@.rooms.contains_key(new_room_id@),
        ensures
            ({
                let step = spec_create_room(old(state)@, spec_uid(*self), new_room_id@);
                &&& final(state)@ == step.state
                &&& out.deep_view() == step.out
            }),
            final(state)@.wf(),
            session_ok(*self, final(state)@),
    {
        let ghost step = spec_create_room(old(state)@, spec_uid(*self), new_room_id@);
        let uid = match &self.user_id {
            Option::Some(u) => u.clone(),
            Option::None => {
                let out = error_out(String::from_str("Not registered"));
                proof {
                    assert(out.deep_view() =~~= step.out);
                }
                return out;
            },
        };
        if state.user_room_of(uid.as_str()).is_some() {
            let out = error_out(String::from_str("Already in a room"));
            proof {
                assert(out.deep_view() =~~= step.out);
            }
            return out;
        }
        let username = state.username_of(uid.as_str()).unwrap();
        let reply_room_id = new_room_id.clone();
        let participant = ParticipantInfo { user_id: uid.clone(), username: username.clone() };
        state.create_room_entry(new_room_id, uid, username);
        let mut participants: Vec<ParticipantInfo> = Vec::new();
        participants.push(participant);
        let mut out: Vec<Delivery> = Vec::new();
        out.push(
            reply(ServerMessage::RoomJoined { room_id: reply_room_id, participants }),
        );
        proof {
            broadcast use lemma_vec_deep_view;

            assert(out.deep_view() =~~= step.out);
            assert(final(state)@ =~~= step.state);
        }
        out
    }

    /// Joins this session's user to an existing room and answers with
    /// the post-join membership; every member already present is notified
    /// exactly once.
    pub fn join_room(&self, state: &mut ServerState, room_id: &str) -> (out: Vec<Delivery>)
        requires
            old(state)@.wf(),
            session_ok(*self, old(state)@),
        ensures
            ({
                let step = spec_join_room(old(state)@, spec_uid(*self), room_id@);
                &&& final(state)@ == step.state
                &&& out.deep_view() == step.out
            }),
            final(state)@.wf(),
            session_ok(*self, final(state)@),
    {
        let ghost step = spec_join_room(old(state)@, spec_uid(*self), room_id@);
        let uid = match &self.user_id {
            Option::Some(u) => u.clone(),
            Option::None => {
                let out = error_out(String::from_str("Not registered"));
                proof {
                    assert(out.deep_view() =~~= step.out);
                }
                return out;
            },
        };
        if state.user_room_of(uid.as_str()).is_some() {
            let out = error_out(String::from_str("Already in a room"));
            proof {
                assert(out.deep_view() =~~= step.out);
            }
            return out;
        }
        if !state.rooms_contains(room_id) {
            let out = error_out(String::from_str("Room not found"));
            proof {
                assert(out.deep_view() =~~= step.out);
            }
            return out;
        }
        let username = state.username_of(uid.as_str()).unwrap();
        let prior_members = state.participants_of(room_id).unwrap();
        let joined = state.join_room_entry(room_id, uid.clone(), username.clone());
        let mut out: Vec<Delivery> = Vec::new();
        out.push(
            reply(ServerMessage::RoomJoined { room_id: room_id.to_owned(), participants: joined }),
        );
        let mut fanout = build_user_joined_fanout(&prior_members, uid.as_str(), username.as_str());
        out.append(&mut fanout);
        proof {
            assert(out.deep_view() =~~= step.out);
            assert(final(state)@ =~~= step.state);
        }
        out
    }

    /// Takes this session's user out of its room, answering with
    /// `RoomLeft`; every remaining member is notified exactly once, and
    /// the room is destroyed when the last member leaves. Media peers are
    /// deliberately left alone: only a disconnect tears them down.
    pub fn leave_room(&self, state: &mut ServerState) -> (out: Vec<Delivery>)
        requires
            old(state)@.wf(),
            session_ok(*self, old(state)@),
        ensures
            ({
                let step = spec_leave_room(old(state)@, spec_uid(*self));
                &&& final(state)@ == step.state
                &&& out.deep_view() == step.out
            }),
            final(state)@.wf(),
            session_ok(*self, final(state)@),
    {
        let ghost step = spec_leave_room(old(state)@, spec_uid(*self));
        let uid = match &self.user_id {
            Option::Some(u) => u.clone(),
            Option::None => {
                let out = error_out(String::from_str("Not registered"));
                proof {
                    assert(out.deep_view() =~~= step.out);
                }
                return out;
            },
        };
        match state.leave_room_entry(uid.as_str()) {
            Option::Some((_room_id, username, remaining)) => {
                let mut out: Vec<Delivery> = Vec::new();
                out.push(reply(ServerMessage::RoomLeft));
                let mut fanout = build_user_left_fanout(
                    &remaining,
                    uid.as_str(),
                    username.as_str(),
                );
                out.append(&mut fanout);
                proof {
                    assert(out.deep_view() =~~= step.out);
                    assert(final(state)@ =~~= step.state);
                }
                out
            },
            Option::None => {
                let out = error_out(String::from_str("Not in a room"));
                proof {
                    assert(out.deep_view() =~~= step.out);
                }
                out
            },
        }
    }

    /// Answers a ping.
    pub fn ping(&self) -> (out: Vec<Delivery>)
        ensures
            out.deep_view() == seq![to_client(MessageModel::Pong)],
    {
        let mut out: Vec<Delivery> = Vec::new();
        out.push(reply(ServerMessage::Pong));
        proof {
            assert(out.deep_view() =~= seq![to_client(MessageModel::Pong)]);
        }
        out
    }
}

/// Finish step for `ConsumerAnswer`: a successfully applied answer
/// needs no reply; a failing application is answered with an error.
pub fn consumer_answer_finish(outcome: Result<(), String>) -> (out: Vec<Delivery>)
    ensures
        match outcome {
            Ok(()) => out.deep_view() == Seq::<DeliveryModel>::empty(),
            Err(e) => out.deep_view() == seq![
                error_to_client(("Failed to set consumer answer: ")@ + e@),
            ],
        },
{
    match outcome {
        Ok(()) => {
            let out: Vec<Delivery> = Vec::new();
            proof {
                assert(out.deep_view() =~= Seq::<DeliveryModel>::empty());
            }
            out
        },
        Err(e) => {
            let message = String::from_str("Failed to set consumer answer: ").concat(e.as_str());
            error_out(message)
        },
    }
}

/// The reply to a frame that does not parse as a control message: an
/// error naming the problem; nothing else changes.
pub fn invalid_message(detail: &str) -> (out: Vec<Delivery>)
    ensures
        out.deep_view() == seq![error_to_client(("Invalid message format: ")@ + detail@)],
{
    let message = String::from_str("Invalid message format: ").concat(detail);
    error_out(message)
}


/// Transport work the embedding program still has to do after a control
/// step: none, or one media-transport operation whose outcome it reports
/// back through the matching finish step.
pub enum Continuation {
    Done,
    CreatePublisherTransport { user_id: String, username: String },
    ApplyPublisherAnswer { user_id: String, sdp: String },
    CreateConsumerTransport { plan: ConsumerPlan },
    ApplyConsumerAnswer { consumer_id: String, sdp: String },
    IngestPublisherCandidate { user_id: String, candidate: String },
    IngestConsumerCandidate { consumer_id: String, candidate: String },
}

/// Everything the embedding program needs to build one consumer's
/// transport: the registry identifiers and the source track.
#[derive(Debug)]
pub struct ConsumerPlan {
    pub consumer_id: String,
    pub publisher_user_id: String,
    pub subscriber_user_id: String,
    pub track_id: String,
}

/// What one dispatched control message produced: the outbound deliveries,
/// and the transport work that remains.
pub struct Step {
    pub outputs: Vec<Delivery>,
    pub next: Continuation,
}

/// A media transport the embedding program must close.
pub enum Teardown {
    Publisher(String),
    Consumer(String),
}

/// Spec-level mirror of `Teardown`.
#[verifier::ext_equal]
pub enum TeardownModel {
    Publisher(Seq<char>),
    Consumer(Seq<char>),
}

impl View for Teardown {
    type V = TeardownModel;

    open spec fn view(&self) -> TeardownModel {
        match self {
            Teardown::Publisher(u) => TeardownModel::Publisher(u@),
            Teardown::Consumer(c) => TeardownModel::Consumer(c@),
        }
    }
}

impl DeepView for Teardown {
    type V = TeardownModel;

    open spec fn deep_view(&self) -> TeardownModel {
        self@
    }
}

/// One consumer teardown per listed identifier, in order.
pub open spec fn to_consumer_teardowns(ids: Seq<Seq<char>>) -> Seq<TeardownModel>
    decreases ids.len(),
{
    if ids.len() == 0 {
        Seq::empty()
    } else {
        to_consumer_teardowns(ids.drop_last()).push(TeardownModel::Consumer(ids.last()))
    }
}

/// Appends one consumer teardown per identifier.
fn append_consumer_teardowns(tds: &mut Vec<Teardown>, ids: &Vec<String>)
    ensures
        final(tds).deep_view() == old(tds).deep_view() + to_consumer_teardowns(ids.deep_view()),
{
    let ghost base = old(tds).deep_view();
    let n = ids.len();
    for i in 0..n
        invariant
            n == ids.len(),
            tds.deep_view() == base + to_consumer_teardowns(ids.deep_view().take(i as int)),
    {
        proof {
            broadcast use lemma_vec_deep_view;

            assert(ids.deep_view().take(i + 1).drop_last() =~= ids.deep_view().take(i as int));
            assert(ids.deep_view().take(i + 1).last() == ids.deep_view()[i as int]);
            assert(ids.deep_view()[i as int] == ids[i as int]@);
        }
        let ghost old_tds_snapshot = *tds;
        tds.push(Teardown::Consumer(ids[i].clone()));
        proof {
            broadcast use lemma_vec_deep_view;

            assert(to_consumer_teardowns(ids.deep_view().take(i + 1))
                == to_consumer_teardowns(ids.deep_view().take(i as int)).push(
                TeardownModel::Consumer(ids.deep_view()[i as int]),
            ));
            assert(tds@.last()@ == TeardownModel::Consumer(ids[i as int]@));
            let rhs = base + to_consumer_teardowns(ids.deep_view().take(i + 1));
            assert(tds.deep_view().len() == rhs.len());
            assert forall|k: int| 0 <= k < rhs.len() implies tds.deep_view()[k] == rhs[k] by {
                assert(tds.deep_view()[k] == tds@[k]@);
                if k < rhs.len() - 1 {
                    assert(old_tds_snapshot.deep_view() == base + to_consumer_teardowns(
                        ids.deep_view().take(i as int),
                    ));
                    assert(old_tds_snapshot.deep_view()[k] == old_tds_snapshot@[k]@);
                    assert(tds@[k] == old_tds_snapshot@[k]);
                }
            }
            assert(tds.deep_view() =~~= rhs);
        }
    }
    proof {
        assert(ids.deep_view().take(n as int) =~= ids.deep_view());
    }
}

/// Builds the `NewPublisher` fan-out to every listed member except the
/// publisher itself.
fn build_new_publisher_fanout(
    members: &Vec<ParticipantInfo>,
    user_id: &str,
    username: &str,
) -> (out: Vec<Delivery>)
    ensures
        out.deep_view() == fanout_new_publisher(members.deep_view(), user_id@, username@),
{
    let mut out: Vec<Delivery> = Vec::new();
    let n = members.len();
    for i in 0..n
        invariant
            n == members.len(),
            out.deep_view() == fanout_new_publisher(
                members.deep_view().take(i as int),
                user_id@,
                username@,
            ),
    {
        proof {
            broadcast use lemma_vec_deep_view;

            assert(members.deep_view().take(i + 1).drop_last() =~= members.deep_view().take(
                i as int,
            ));
            assert(members.deep_view().take(i + 1).last() == members.deep_view()[i as int]);
            assert(members.deep_view()[i as int] == members[i as int]@);
        }
        let m = &members[i];
        if !str_eq(m.user_id.as_str(), user_id) {
            out.push(
                Delivery {
                    target: SendTarget::User(m.user_id.clone()),
                    message: ServerMessage::NewPublisher {
                        user_id: user_id.to_owned(),
                        username: username.to_owned(),
                    },
                },
            );
        }
        proof {
            assert(out.deep_view() =~~= fanout_new_publisher(
                members.deep_view().take(i + 1),
                user_id@,
                username@,
            ));
        }
    }
    proof {
        assert(members.deep_view().take(n as int) =~= members.deep_view());
    }
    out
}

/// The successful publisher-creation step: any previous publisher entry
/// for the user is replaced and the consumers bound to it are dropped (a
/// consumer is destroyed on publisher removal); the client receives the
/// transport's offer.
pub open spec fn spec_create_publisher_ok(s: StateModel, u: Seq<char>, sdp: Seq<char>) -> StepModel {
    StepModel {
        state: StateModel {
            router: crate::router::RouterModel {
                publishers: s.router.publishers.insert(
                    u,
                    crate::router::PublisherModel {
                        user_id: u,
                        username: s.users[u],
                        track_id: Option::None,
                    },
                ),
                consumers: crate::router::surviving_consumers(
                    s.router.consumers,
                    crate::router::RemovalKey::Publisher(u),
                ),
            },
            ..s
        },
        session: Option::Some(u),
        out: seq![to_client(MessageModel::PublisherCreated { sdp })],
    }
}

/// The successful publish step: the client receives `AudioPublished`
/// with the resolved track, and then, if the publisher occupies a room,
/// each other member receives `NewPublisher` — the announcement never
/// precedes the publish reply. Without a resolved track the client
/// receives an error and nothing is announced.
pub open spec fn spec_publish_audio_ok(s: StateModel, u: Seq<char>) -> Seq<DeliveryModel> {
    if s.router.publishers.contains_key(u) && s.router.publishers[u].track_id is Some {
        seq![
            to_client(
                MessageModel::AudioPublished { track_id: s.router.publishers[u].track_id->0 },
            ),
        ] + (if s.user_rooms.contains_key(u) {
            fanout_new_publisher(s.rooms[s.user_rooms[u]], u, s.users[u])
        } else {
            Seq::empty()
        })
    } else {
        seq![error_to_client(("Failed to publish audio: track not available")@)]
    }
}

/// The disconnect step, in order: the user's publisher goes, with every
/// consumer bound to it; then every consumer the user subscribed with;
/// then the user leaves its room, notifying the remaining members; then
/// the user table entry goes.
pub struct DisconnectModel {
    pub state: StateModel,
    pub out: Seq<DeliveryModel>,
    pub teardowns: Seq<TeardownModel>,
}

/// See `DisconnectModel`.
pub open spec fn spec_disconnect(s: StateModel, sess: Option<Seq<char>>) -> DisconnectModel {
    match sess {
        Option::None => DisconnectModel {
            state: s,
            out: Seq::empty(),
            teardowns: Seq::empty(),
        },
        Option::Some(u) => {
            let cons1 = crate::router::surviving_consumers(
                s.router.consumers,
                crate::router::RemovalKey::Publisher(u),
            );
            let td1 = (if s.router.publishers.contains_key(u) {
                seq![TeardownModel::Publisher(u)]
            } else {
                Seq::empty()
            }) + to_consumer_teardowns(
                crate::router::removed_consumer_ids(
                    s.router.consumers,
                    crate::router::RemovalKey::Publisher(u),
                ),
            );
            let cons2 = crate::router::surviving_consumers(
                cons1,
                crate::router::RemovalKey::Subscriber(u),
            );
            let td2 = to_consumer_teardowns(
                crate::router::removed_consumer_ids(
                    cons1,
                    crate::router::RemovalKey::Subscriber(u),
                ),
            );
            let rid = s.user_rooms[u];
            let remaining = without_member(s.rooms[rid], u);
            let name = member_username(s.rooms[rid], u);
            DisconnectModel {
                state: StateModel {
                    users: s.users.remove(u),
                    rooms: if s.user_rooms.contains_key(u) {
                        if remaining.len() == 0 {
                            s.rooms.remove(rid)
                        } else {
                            s.rooms.insert(rid, remaining)
                        }
                    } else {
                        s.rooms
                    },
                    user_rooms: s.user_rooms.remove(u),
                    router: crate::router::RouterModel {
                        publishers: s.router.publishers.remove(u),
                        consumers: cons2,
                    },
                },
                out: if s.user_rooms.contains_key(u) {
                    fanout_user_left(remaining, u, name)
                } else {
                    Seq::empty()
                },
                teardowns: td1 + td2,
            }
        },
    }
}

impl Session {
    /// Check step for `CreatePublisher`: a registered user may create a
    /// publisher transport; anyone else receives an error.
    pub fn create_publisher_check(&self, state: &ServerState) -> (r: Result<
        ParticipantInfo,
        Vec<Delivery>,
    >)
        requires
            session_ok(*self, state@),
        ensures
            match r {
                Ok(p) => spec_uid(*self) == Option::Some(p.user_id@) && state@.users.contains_key(
                    p.user_id@,
                ) && p.username@ == state@.users[p.user_id@],
                Err(out) => spec_uid(*self) is None && out.deep_view() == seq![
                    error_to_client(("Not registered")@),
                ],
            },
    {
        match &self.user_id {
            Option::Some(u) => {
                let username = state.username_of(u.as_str()).unwrap();
                Ok(ParticipantInfo { user_id: u.clone(), username })
            },
            Option::None => Err(error_out(String::from_str("Not registered"))),
        }
    }

    /// Finish step for `CreatePublisher`: on transport success the
    /// publisher is registered (replacing any previous one, whose
    /// consumers are dropped) and the client receives the offer; on
    /// failure the half-constructed peer is discarded and the client
    /// receives an error. Returns the transports to close.
    pub fn create_publisher_finish(&self, state: &mut ServerState, transport: Result<
        String,
        String,
    >) -> (r: (Vec<Delivery>, Vec<Teardown>))
        requires
            old(state)@.wf(),
            session_ok(*self, old(state)@),
            self.user_id is Some,
        ensures
            final(state)@.wf(),
            session_ok(*self, final(state)@),
            ({
                let u = spec_uid(*self)->0;
                match transport {
                    Ok(sdp) => {
                        let step = spec_create_publisher_ok(old(state)@, u, sdp@);
                        &&& final(state)@ == step.state
                        &&& r.0.deep_view() == step.out
                        &&& r.1.deep_view() == (if old(state)@.router.publishers.contains_key(u) {
                            seq![TeardownModel::Publisher(u)]
                        } else {
                            Seq::<TeardownModel>::empty()
                        }) + to_consumer_teardowns(
                            crate::router::removed_consumer_ids(
                                old(state)@.router.consumers,
                                crate::router::RemovalKey::Publisher(u),
                            ),
                        )
                    },
                    Err(e) => final(state)@ == old(state)@ && r.0.deep_view() == seq![
                        error_to_client(("Failed to create publisher: ")@ + e@),
                    ] && r.1.deep_view() == Seq::<TeardownModel>::empty(),
                }
            }),
    {
        let uid = match &self.user_id {
            Option::Some(u) => u.clone(),
            Option::None => unreached(),
        };
        match transport {
            Ok(sdp) => {
                let username = state.username_of(uid.as_str()).unwrap();
                let (had_publisher, dropped) = state.remove_publisher(uid.as_str());
                let mut teardowns: Vec<Teardown> = Vec::new();
                if had_publisher {
                    teardowns.push(Teardown::Publisher(uid.clone()));
                }
                proof {
                    crate::router::lemma_surviving_consumers_sub(
                        old(state)@.router.consumers,
                        crate::router::RemovalKey::Publisher(uid@),
                    );
                }
                append_consumer_teardowns(&mut teardowns, &dropped);
                state.add_publisher(uid, username);
                let mut out: Vec<Delivery> = Vec::new();
                out.push(reply(ServerMessage::PublisherCreated { sdp }));
                proof {
                    let u = spec_uid(*self)->0;
                    let step = spec_create_publisher_ok(old(state)@, u, transport->Ok_0@);
                    assert(final(state)@ =~~= step.state);
                    assert(out.deep_view() =~~= step.out);
                    assert(teardowns.deep_view() =~~= (if old(
                        state,
                    )@.router.publishers.contains_key(u) {
                        seq![TeardownModel::Publisher(u)]
                    } else {
                        Seq::<TeardownModel>::empty()
                    }) + to_consumer_teardowns(
                        crate::router::removed_consumer_ids(
                            old(state)@.router.consumers,
                            crate::router::RemovalKey::Publisher(u),
                        ),
                    ));
                }
                (out, teardowns)
            },
            Err(e) => {
                let message = String::from_str("Failed to create publisher: ").concat(e.as_str());
                let out = error_out(message);
                let teardowns: Vec<Teardown> = Vec::new();
                proof {
                    assert(teardowns.deep_view() =~= Seq::<TeardownModel>::empty());
                }
                (out, teardowns)
            },
        }
    }

    /// Check step for `PublishAudio`: the user must be registered and
    /// have a publisher whose transport the answer can be applied to.
    pub fn publish_audio_check(&self, state: &ServerState) -> (r: Result<String, Vec<Delivery>>)
        requires
            session_ok(*self, state@),
        ensures
            match r {
                Ok(uid) => spec_uid(*self) == Option::Some(uid@)
                    && state@.router.publishers.contains_key(uid@),
                Err(out) => match spec_uid(*self) {
                    Option::None => out.deep_view() == seq![error_to_client(("Not registered")@)],
                    Option::Some(u) => !state@.router.publishers.contains_key(u)
                        && out.deep_view() == seq![
                        error_to_client(
                            ("Failed to set publisher answer: ")@ + ((
                            "Publisher not found for user: ")@ + u),
                        ),
                    ],
                },
            },
    {
        let uid = match &self.user_id {
            Option::Some(u) => u.clone(),
            Option::None => {
                return Err(error_out(String::from_str("Not registered")));
            },
        };
        match state.sfu().set_publisher_answer(uid.as_str()) {
            Ok(_) => Ok(uid),
            Err(m) => {
                let message = String::from_str("Failed to set publisher answer: ").concat(
                    m.as_str(),
                );
                Err(error_out(message))
            },
        }
    }

    /// Finish step for `PublishAudio`: once the remote answer is applied
    /// and the inbound track has resolved, the client receives
    /// `AudioPublished` and only then is `NewPublisher` fanned out to the
    /// other room members; if the track never resolved the client
    /// receives an error and nothing is announced.
    pub fn publish_audio_finish(&self, state: &ServerState, outcome: Result<(), String>) -> (out:
        Vec<Delivery>)
        requires
            state@.wf(),
            session_ok(*self, state@),
            self.user_id is Some,
        ensures
            match outcome {
                Ok(()) => out.deep_view() == spec_publish_audio_ok(state@, spec_uid(*self)->0),
                Err(e) => out.deep_view() == seq![
                    error_to_client(("Failed to set publisher answer: ")@ + e@),
                ],
            },
    {
        let uid = match &self.user_id {
            Option::Some(u) => u.clone(),
            Option::None => unreached(),
        };
        match outcome {
            Ok(()) => {
                match state.sfu().get_publisher_track_id(uid.as_str()) {
                    Option::Some(track_id) => {
                        let mut out: Vec<Delivery> = Vec::new();
                        out.push(reply(ServerMessage::AudioPublished { track_id }));
                        match state.user_room_of(uid.as_str()) {
                            Option::Some(room_id) => {
                                let username = state.username_of(uid.as_str()).unwrap();
                                let members = state.participants_of(room_id.as_str()).unwrap();
                                let mut fanout = build_new_publisher_fanout(
                                    &members,
                                    uid.as_str(),
                                    username.as_str(),
                                );
                                out.append(&mut fanout);
                            },
                            Option::None => {},
                        }
                        proof {
                            assert(out.deep_view() =~~= spec_publish_audio_ok(
                                state@,
                                spec_uid(*self)->0,
                            ));
                        }
                        out
                    },
                    Option::None => {
                        let out = error_out(
                            String::from_str("Failed to publish audio: track not available"),
                        );
                        proof {
                            assert(out.deep_view() =~~= spec_publish_audio_ok(
                                state@,
                                spec_uid(*self)->0,
                            ));
                        }
                        out
                    },
                }
            },
            Err(e) => {
                let message = String::from_str("Failed to set publisher answer: ").concat(
                    e.as_str(),
                );
                error_out(message)
            },
        }
    }
}


impl Session {
    /// Check step for `CreateConsumer`: the subscriber must be
    /// registered and the named publisher must exist with a resolved
    /// inbound track; otherwise an error is answered and nothing is
    /// registered.
    pub fn create_consumer_check(
        &self,
        state: &ServerState,
        publisher_user_id: &str,
        new_consumer_id: String,
    ) -> (r: Result<ConsumerPlan, Vec<Delivery>>)
        requires
            session_ok(*self, state@),
        ensures
            match r {
                Ok(plan) => {
                    &&& spec_uid(*self) == Option::Some(plan.subscriber_user_id@)
                    &&& plan.consumer_id@ == new_consumer_id@
                    &&& plan.publisher_user_id@ == publisher_user_id@
                    &&& state@.router.publishers.contains_key(publisher_user_id@)
                    &&& state@.router.publishers[publisher_user_id@].track_id == Option::Some(
                        plan.track_id@,
                    )
                },
                Err(out) => match spec_uid(*self) {
                    Option::None => out.deep_view() == seq![error_to_client(("Not registered")@)],
                    Option::Some(_) => if !state@.router.publishers.contains_key(
                        publisher_user_id@,
                    ) {
                        out.deep_view() == seq![
                            error_to_client(
                                ("Failed to create consumer: Publisher not found: ")@
                                    + publisher_user_id@,
                            ),
                        ]
                    } else {
                        state@.router.publishers[publisher_user_id@].track_id is None
                            && out.deep_view() == seq![
                            error_to_client(
                                ("Failed to create consumer: Publisher ")@ + publisher_user_id@
                                    + (" has no audio track yet")@,
                            ),
                        ]
                    },
                },
            },
    {
        let uid = match &self.user_id {
            Option::Some(u) => u.clone(),
            Option::None => {
                return Err(error_out(String::from_str("Not registered")));
            },
        };
        if !state.sfu().contains_publisher(publisher_user_id) {
            let message = String::from_str("Failed to create consumer: Publisher not found: ")
                .concat(publisher_user_id);
            return Err(error_out(message));
        }
        match state.sfu().get_publisher_track_id(publisher_user_id) {
            Option::Some(track_id) => Ok(
                ConsumerPlan {
                    consumer_id: new_consumer_id,
                    publisher_user_id: publisher_user_id.to_owned(),
                    subscriber_user_id: uid,
                    track_id,
                },
            ),
            Option::None => {
                let message = String::from_str("Failed to create consumer: Publisher ").concat(
                    publisher_user_id,
                ).concat(" has no audio track yet");
                Err(error_out(message))
            },
        }
    }

    /// Finish step for `CreateConsumer`: on transport success the
    /// consumer is registered — after checking again that its publisher
    /// still exists with a resolved track and that the minted identifier
    /// is still unused — and the client receives the offer; on any
    /// failure nothing is registered and the client receives an error.
    pub fn create_consumer_finish(
        &self,
        state: &mut ServerState,
        plan: ConsumerPlan,
        transport: Result<String, String>,
    ) -> (out: Vec<Delivery>)
        requires
            old(state)@.wf(),
            session_ok(*self, old(state)@),
        ensures
            final(state)@.wf(),
            session_ok(*self, final(state)@),
            match transport {
                Ok(sdp) => {
                    if crate::router::has_consumer(
                        old(state)@.router.consumers,
                        plan.consumer_id@,
                    ) {
                        final(state)@ == old(state)@ && out.deep_view() == seq![
                            error_to_client(
                                ("Failed to create consumer: duplicate consumer identifier")@,
                            ),
                        ]
                    } else if old(state)@.router.publishers.contains_key(plan.publisher_user_id@)
                        && old(state)@.router.publishers[plan.publisher_user_id@].track_id
                        is Some {
                        &&& final(state)@ == StateModel {
                            router: crate::router::RouterModel {
                                publishers: old(state)@.router.publishers,
                                consumers: old(state)@.router.consumers.push(
                                    crate::router::ConsumerModel {
                                        consumer_id: plan.consumer_id@,
                                        publisher_user_id: plan.publisher_user_id@,
                                        subscriber_user_id: plan.subscriber_user_id@,
                                    },
                                ),
                            },
                            ..old(state)@
                        }
                        &&& out.deep_view() == seq![
                            to_client(
                                MessageModel::ConsumerCreated {
                                    consumer_id: plan.consumer_id@,
                                    publisher_user_id: plan.publisher_user_id@,
                                    sdp: sdp@,
                                },
                            ),
                        ]
                    } else {
                        final(state)@ == old(state)@ && (if !old(
                            state,
                        )@.router.publishers.contains_key(plan.publisher_user_id@) {
                            out.deep_view() == seq![
                                error_to_client(
                                    ("Failed to create consumer: ")@ + (("Publisher not found: ")@
                                        + plan.publisher_user_id@),
                                ),
                            ]
                        } else {
                            out.deep_view() == seq![
                                error_to_client(
                                    ("Failed to create consumer: ")@ + (("Publisher ")@
                                        + plan.publisher_user_id@ + (" has no audio track yet")@),
                                ),
                            ]
                        })
                    }
                },
                Err(e) => final(state)@ == old(state)@ && out.deep_view() == seq![
                    error_to_client(("Failed to create consumer: ")@ + e@),
                ],
            },
    {
        let sdp = match transport {
            Ok(sdp) => sdp,
            Err(e) => {
                let message = String::from_str("Failed to create consumer: ").concat(e.as_str());
                return error_out(message);
            },
        };
        if state.sfu().contains_consumer(plan.consumer_id.as_str()) {
            return error_out(
                String::from_str("Failed to create consumer: duplicate consumer identifier"),
            );
        }
        let reply_consumer_id = plan.consumer_id.clone();
        let reply_publisher_id = plan.publisher_user_id.clone();
        match state.add_consumer(
            plan.publisher_user_id.as_str(),
            plan.subscriber_user_id.as_str(),
            plan.consumer_id,
        ) {
            Ok(()) => {
                let mut out: Vec<Delivery> = Vec::new();
                out.push(
                    reply(
                        ServerMessage::ConsumerCreated {
                            consumer_id: reply_consumer_id,
                            publisher_user_id: reply_publisher_id,
                            sdp,
                        },
                    ),
                );
                proof {
                    assert(final(state)@ =~~= StateModel {
                        router: crate::router::RouterModel {
                            publishers: old(state)@.router.publishers,
                            consumers: old(state)@.router.consumers.push(
                                crate::router::ConsumerModel {
                                    consumer_id: plan.consumer_id@,
                                    publisher_user_id: plan.publisher_user_id@,
                                    subscriber_user_id: plan.subscriber_user_id@,
                                },
                            ),
                        },
                        ..old(state)@
                    });
                    assert(out.deep_view() =~~= seq![
                        to_client(
                            MessageModel::ConsumerCreated {
                                consumer_id: plan.consumer_id@,
                                publisher_user_id: plan.publisher_user_id@,
                                sdp: sdp@,
                            },
                        ),
                    ]);
                }
                out
            },
            Err(message) => {
                let message = String::from_str("Failed to create consumer: ").concat(
                    message.as_str(),
                );
                error_out(message)
            },
        }
    }

    /// Check step for `ConsumerAnswer`: the session must be registered
    /// and the consumer must exist; a missing consumer is answered with
    /// an error, as the failing answer application would be.
    pub fn consumer_answer_check(&self, state: &ServerState, consumer_id: &str) -> (r: Result<
        (),
        Vec<Delivery>,
    >)
        ensures
            match r {
                Ok(()) => spec_uid(*self) is Some && crate::router::has_consumer(
                    state@.router.consumers,
                    consumer_id@,
                ),
                Err(out) => match spec_uid(*self) {
                    Option::None => out.deep_view() == seq![error_to_client(("Not registered")@)],
                    Option::Some(_) => !crate::router::has_consumer(
                        state@.router.consumers,
                        consumer_id@,
                    ) && out.deep_view() == seq![
                        error_to_client(
                            ("Failed to set consumer answer: ")@ + (("Consumer not found: ")@
                                + consumer_id@),
                        ),
                    ],
                },
            },
    {
        if self.user_id.is_none() {
            return Err(error_out(String::from_str("Not registered")));
        }
        match state.sfu().set_consumer_answer(consumer_id) {
            Ok(()) => Ok(()),
            Err(m) => {
                let message = String::from_str("Failed to set consumer answer: ").concat(
                    m.as_str(),
                );
                Err(error_out(message))
            },
        }
    }

    /// The target of an inbound publisher-side candidate: this session's
    /// publisher, when the session is registered and the publisher
    /// exists. An unknown target is a recoverable warning, so there is
    /// never a reply.
    pub fn publisher_candidate_target(&self, state: &ServerState) -> (r: Option<String>)
        ensures
            match r {
                Option::Some(u) => spec_uid(*self) == Option::Some(u@)
                    && state@.router.publishers.contains_key(u@),
                Option::None => spec_uid(*self) is None || !state@.router.publishers.contains_key(
                    spec_uid(*self)->0,
                ),
            },
    {
        match &self.user_id {
            Option::Some(u) => match state.sfu().add_publisher_ice_candidate(u.as_str()) {
                Ok(()) => Option::Some(u.clone()),
                Err(_) => Option::None,
            },
            Option::None => Option::None,
        }
    }

    /// Tears down everything this session owned, in order: its
    /// publisher with every consumer bound to it, then its own
    /// subscriptions, then its room membership — notifying the remaining
    /// members — and finally its user entry. Returns the deliveries and
    /// the transports the embedding program must close.
    pub fn disconnect(&mut self, state: &mut ServerState) -> (r: (Vec<Delivery>, Vec<Teardown>))
        requires
            old(state)@.wf(),
            session_ok(*old(self), old(state)@),
        ensures
            final(state)@.wf(),
            final(self).user_id is None,
            ({
                let d = spec_disconnect(old(state)@, spec_uid(*old(self)));
                &&& final(state)@ == d.state
                &&& r.0.deep_view() == d.out
                &&& r.1.deep_view() == d.teardowns
            }),
    {
        let ghost d = spec_disconnect(old(state)@, spec_uid(*old(self)));
        let uid = match &self.user_id {
            Option::Some(u) => u.clone(),
            Option::None => {
                let out: Vec<Delivery> = Vec::new();
                let tds: Vec<Teardown> = Vec::new();
                proof {
                    assert(out.deep_view() =~= d.out);
                    assert(tds.deep_view() =~= d.teardowns);
                }
                return (out, tds);
            },
        };
        self.user_id = Option::None;
        let (had_publisher, dropped) = state.remove_publisher(uid.as_str());
        let mut teardowns: Vec<Teardown> = Vec::new();
        if had_publisher {
            teardowns.push(Teardown::Publisher(uid.clone()));
        }
        append_consumer_teardowns(&mut teardowns, &dropped);
        let dropped_own = state.remove_consumers_for_subscriber(uid.as_str());
        append_consumer_teardowns(&mut teardowns, &dropped_own);
        let out = match state.leave_room_entry(uid.as_str()) {
            Option::Some((_room_id, username, remaining)) => build_user_left_fanout(
                &remaining,
                uid.as_str(),
                username.as_str(),
            ),
            Option::None => Vec::new(),
        };
        state.users_remove(uid.as_str());
        proof {
            assert(final(state)@ =~~= d.state);
            assert(out.deep_view() =~~= d.out);
            assert(teardowns.deep_view() =~~= d.teardowns);
        }
        (out, teardowns)
    }
}


/// What dispatching one control message does: how the state, the session
/// identity, the outbound deliveries and the remaining transport work
/// relate to the message. Identifier-minting messages are specified up
/// to the freshly drawn identifier; a mint that collides with an
/// existing identifier is answered with an error and changes nothing.
pub open spec fn dispatch_ok(
    pre: StateModel,
    pre_uid: Option<Seq<char>>,
    msg: ClientMessage,
    post: StateModel,
    post_uid: Option<Seq<char>>,
    outputs: Seq<DeliveryModel>,
    next: Continuation,
) -> bool {
    match msg {
        ClientMessage::Register { username } => (next is Done) && ((exists|fresh: Seq<char>|
            {
                &&& !pre.users.contains_key(fresh)
                &&& ({
                    let st = #[trigger] spec_register(pre, pre_uid, username@, fresh);
                    post == st.state && post_uid == st.session && outputs == st.out
                })
            }) || (post == pre && post_uid == pre_uid && outputs == seq![
            error_to_client(("Failed to allocate identifier")@),
        ])),
        ClientMessage::CreateRoom => (next is Done) && post_uid == pre_uid && ((exists|
            fresh: Seq<char>,
        |
            {
                &&& !pre.rooms.contains_key(fresh)
                &&& ({
                    let st = #[trigger] spec_create_room(pre, pre_uid, fresh);
                    post == st.state && outputs == st.out
                })
            }) || (post == pre && outputs == seq![
            error_to_client(("Failed to allocate identifier")@),
        ])),
        ClientMessage::JoinRoom { room_id } => (next is Done) && post_uid == pre_uid && ({
            let st = spec_join_room(pre, pre_uid, room_id@);
            post == st.state && outputs == st.out
        }),
        ClientMessage::LeaveRoom => (next is Done) && post_uid == pre_uid && ({
            let st = spec_leave_room(pre, pre_uid);
            post == st.state && outputs == st.out
        }),
        ClientMessage::Ping => (next is Done) && post == pre && post_uid == pre_uid && outputs
            == seq![to_client(MessageModel::Pong)],
        ClientMessage::CreatePublisher => post == pre && post_uid == pre_uid && (match pre_uid {
            Option::None => next is Done && outputs == seq![error_to_client(("Not registered")@)],
            Option::Some(u) => outputs == Seq::<DeliveryModel>::empty() && (
            next matches Continuation::CreatePublisherTransport { user_id, username } && user_id@
                == u && username@ == pre.users[u]),
        }),
        ClientMessage::PublishAudio { sdp } => post == pre && post_uid == pre_uid && (match pre_uid {
            Option::None => next is Done && outputs == seq![error_to_client(("Not registered")@)],
            Option::Some(u) => {
                if !pre.router.publishers.contains_key(u) {
                    next is Done && outputs == seq![
                        error_to_client(
                            ("Failed to set publisher answer: ")@ + ((
                            "Publisher not found for user: ")@ + u),
                        ),
                    ]
                } else {
                    outputs == Seq::<DeliveryModel>::empty() && (
                    next matches Continuation::ApplyPublisherAnswer { user_id, sdp: answer }
                        && user_id@ == u && answer@ == sdp@)
                }
            },
        }),
        ClientMessage::CreateConsumer { publisher_user_id } => post == pre && post_uid == pre_uid
            && (match pre_uid {
            Option::None => next is Done && outputs == seq![error_to_client(("Not registered")@)],
            Option::Some(u) => {
                if !pre.router.publishers.contains_key(publisher_user_id@) {
                    next is Done && outputs == seq![
                        error_to_client(
                            ("Failed to create consumer: Publisher not found: ")@
                                + publisher_user_id@,
                        ),
                    ]
                } else if pre.router.publishers[publisher_user_id@].track_id is None {
                    next is Done && outputs == seq![
                        error_to_client(
                            ("Failed to create consumer: Publisher ")@ + publisher_user_id@
                                + (" has no audio track yet")@,
                        ),
                    ]
                } else {
                    (exists|fresh: Seq<char>|
                        {
                            &&& !(#[trigger] crate::router::has_consumer(
                                pre.router.consumers,
                                fresh,
                            ))
                            &&& outputs == Seq::<DeliveryModel>::empty()
                            &&& (next matches Continuation::CreateConsumerTransport { plan }
                                && plan.consumer_id@ == fresh && plan.publisher_user_id@
                                == publisher_user_id@ && plan.subscriber_user_id@ == u
                                && pre.router.publishers[publisher_user_id@].track_id
                                == Option::Some(plan.track_id@))
                        }) || (next is Done && outputs == seq![
                        error_to_client(("Failed to allocate identifier")@),
                    ])
                }
            },
        }),
        ClientMessage::ConsumerAnswer { consumer_id, sdp } => post == pre && post_uid == pre_uid
            && (match pre_uid {
            Option::None => next is Done && outputs == seq![error_to_client(("Not registered")@)],
            Option::Some(_) => {
                if !crate::router::has_consumer(pre.router.consumers, consumer_id@) {
                    next is Done && outputs == seq![
                        error_to_client(
                            ("Failed to set consumer answer: ")@ + (("Consumer not found: ")@
                                + consumer_id@),
                        ),
                    ]
                } else {
                    outputs == Seq::<DeliveryModel>::empty() && (
                    next matches Continuation::ApplyConsumerAnswer { consumer_id: cid, sdp: answer }
                        && cid@ == consumer_id@ && answer@ == sdp@)
                }
            },
        }),
        ClientMessage::PublisherIceCandidate { candidate } => post == pre && post_uid == pre_uid
            && outputs == Seq::<DeliveryModel>::empty() && (match pre_uid {
            Option::None => next is Done,
            Option::Some(u) => {
                if pre.router.publishers.contains_key(u) {
                    next matches Continuation::IngestPublisherCandidate { user_id, candidate: c }
                        && user_id@ == u && c@ == candidate@
                } else {
                    next is Done
                }
            },
        }),
        ClientMessage::ConsumerIceCandidate { consumer_id, candidate } => post == pre && post_uid
            == pre_uid && outputs == Seq::<DeliveryModel>::empty() && (if crate::router::has_consumer(
            pre.router.consumers,
            consumer_id@,
        ) {
            next matches Continuation::IngestConsumerCandidate { consumer_id: cid, candidate: c }
                && cid@ == consumer_id@ && c@ == candidate@
        } else {
            next is Done
        }),
    }
}

impl Session {
    /// Dispatches one inbound control message: performs the registry
    /// work it calls for, mints identifiers where the message allocates
    /// one, and reports the transport work that remains. Candidates for
    /// unknown targets are dropped without a reply, as recoverable
    /// warnings.
    pub fn handle_message(&mut self, state: &mut ServerState, msg: ClientMessage) -> (step: Step)
        requires
            old(state)@.wf(),
            session_ok(*old(self), old(state)@),
        ensures
            final(state)@.wf(),
            session_ok(*final(self), final(state)@),
            dispatch_ok(
                old(state)@,
                spec_uid(*old(self)),
                msg,
                final(state)@,
                spec_uid(*final(self)),
                step.outputs.deep_view(),
                step.next,
            ),
    {
        match msg {
            ClientMessage::Register { username } => {
                let fresh = fresh_id();
                if state.users_contains(fresh.as_str()) {
                    let outputs = error_out(String::from_str("Failed to allocate identifier"));
                    Step { outputs, next: Continuation::Done }
                } else {
                    let ghost fresh_view = fresh@;
                    let outputs = self.register(state, username, fresh);
                    proof {
                        let st = spec_register(
                            old(state)@,
                            spec_uid(*old(self)),
                            username@,
                            fresh_view,
                        );
                        assert(final(state)@ == st.state && spec_uid(*final(self)) == st.session
                            && outputs.deep_view() == st.out);
                    }
                    Step { outputs, next: Continuation::Done }
                }
            },
            ClientMessage::CreateRoom => {
                let fresh = fresh_id();
                if state.rooms_contains(fresh.as_str()) {
                    let outputs = error_out(String::from_str("Failed to allocate identifier"));
                    Step { outputs, next: Continuation::Done }
                } else {
                    let ghost fresh_view = fresh@;
                    let outputs = self.create_room(state, fresh);
                    proof {
                        let st = spec_create_room(old(state)@, spec_uid(*old(self)), fresh_view);
                        assert(final(state)@ == st.state && outputs.deep_view() == st.out);
                    }
                    Step { outputs, next: Continuation::Done }
                }
            },
            ClientMessage::JoinRoom { room_id } => {
                let outputs = self.join_room(state, room_id.as_str());
                Step { outputs, next: Continuation::Done }
            },
            ClientMessage::LeaveRoom => {
                let outputs = self.leave_room(state);
                Step { outputs, next: Continuation::Done }
            },
            ClientMessage::Ping => Step { outputs: self.ping(), next: Continuation::Done },
            ClientMessage::CreatePublisher => {
                match self.create_publisher_check(state) {
                    Ok(p) => {
                        let outputs: Vec<Delivery> = Vec::new();
                        proof {
                            assert(outputs.deep_view() =~= Seq::<DeliveryModel>::empty());
                        }
                        Step {
                            outputs,
                            next: Continuation::CreatePublisherTransport {
                                user_id: p.user_id,
                                username: p.username,
                            },
                        }
                    },
                    Err(outputs) => Step { outputs, next: Continuation::Done },
                }
            },
            ClientMessage::PublishAudio { sdp } => {
                match self.publish_audio_check(state) {
                    Ok(user_id) => {
                        let outputs: Vec<Delivery> = Vec::new();
                        proof {
                            assert(outputs.deep_view() =~= Seq::<DeliveryModel>::empty());
                        }
                        Step { outputs, next: Continuation::ApplyPublisherAnswer { user_id, sdp } }
                    },
                    Err(outputs) => Step { outputs, next: Continuation::Done },
                }
            },
            ClientMessage::CreateConsumer { publisher_user_id } => {
                let fresh = crate::ids::generate_consumer_id();
                if state.sfu().contains_consumer(fresh.as_str()) {
                    match self.create_consumer_check(state, publisher_user_id.as_str(), fresh) {
                        Ok(_) => {
                            let outputs = error_out(
                                String::from_str("Failed to allocate identifier"),
                            );
                            Step { outputs, next: Continuation::Done }
                        },
                        Err(outputs) => Step { outputs, next: Continuation::Done },
                    }
                } else {
                    match self.create_consumer_check(state, publisher_user_id.as_str(), fresh) {
                        Ok(plan) => {
                            let outputs: Vec<Delivery> = Vec::new();
                            proof {
                                assert(outputs.deep_view() =~= Seq::<DeliveryModel>::empty());
                            }
                            Step { outputs, next: Continuation::CreateConsumerTransport { plan } }
                        },
                        Err(outputs) => Step { outputs, next: Continuation::Done },
                    }
                }
            },
            ClientMessage::ConsumerAnswer { consumer_id, sdp } => {
                match self.consumer_answer_check(state, consumer_id.as_str()) {
                    Ok(()) => {
                        let outputs: Vec<Delivery> = Vec::new();
                        proof {
                            assert(outputs.deep_view() =~= Seq::<DeliveryModel>::empty());
                        }
                        Step {
                            outputs,
                            next: Continuation::ApplyConsumerAnswer { consumer_id, sdp },
                        }
                    },
                    Err(outputs) => Step { outputs, next: Continuation::Done },
                }
            },
            ClientMessage::PublisherIceCandidate { candidate } => {
                let outputs: Vec<Delivery> = Vec::new();
                proof {
                    assert(outputs.deep_view() =~= Seq::<DeliveryModel>::empty());
                }
                match self.publisher_candidate_target(state) {
                    Option::Some(user_id) => Step {
                        outputs,
                        next: Continuation::IngestPublisherCandidate { user_id, candidate },
                    },
                    Option::None => Step { outputs, next: Continuation::Done },
                }
            },
            ClientMessage::ConsumerIceCandidate { consumer_id, candidate } => {
                let outputs: Vec<Delivery> = Vec::new();
                proof {
                    assert(outputs.deep_view() =~= Seq::<DeliveryModel>::empty());
                }
                match state.sfu().add_consumer_ice_candidate(consumer_id.as_str()) {
                    Ok(()) => Step {
                        outputs,
                        next: Continuation::IngestConsumerCandidate { consumer_id, candidate },
                    },
                    Err(_) => Step { outputs, next: Continuation::Done },
                }
            },
        }
    }
}

} // verus!
