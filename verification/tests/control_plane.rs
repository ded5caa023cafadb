//! End-to-end exercises of the signaling core: registration, rooms,
//! publishing, consuming, candidates, and disconnect cleanup.

use sfu_core::ids::{generate_consumer_id, generate_track_id};
use sfu_core::messages::{ClientMessage, Delivery, SendTarget, ServerMessage};
use sfu_core::session::{invalid_message, Continuation, Session, Teardown};
use sfu_core::state::ServerState;

fn register(state: &mut ServerState, session: &mut Session, name: &str, id: &str) {
    let out = session.register(state, name.to_string(), id.to_string());
    assert_eq!(out.len(), 1);
    match &out[0].message {
        ServerMessage::Registered { user_id } => assert_eq!(user_id, id),
        other => panic!("expected Registered, got {:?}", other),
    }
}

fn create_room(state: &mut ServerState, session: &Session, room_id: &str) -> Vec<Delivery> {
    session.create_room(state, room_id.to_string())
}

/// Brings a registered user to the publishing state: transport created,
/// answer applied, track resolved, peers announced.
fn publish(state: &mut ServerState, session: &Session, track_id: &str) -> Vec<Delivery> {
    let plan = session.create_publisher_check(state).expect("registered");
    let (out, teardowns) = session.create_publisher_finish(state, Ok("offer-sdp".to_string()));
    assert!(teardowns.is_empty());
    assert!(matches!(
        out[0].message,
        ServerMessage::PublisherCreated { .. }
    ));
    assert!(state.sfu().contains_publisher(&plan.user_id));
    let uid = session.publish_audio_check(state).expect("publisher exists");
    assert!(state.resolve_publisher_track(&uid, track_id.to_string()));
    session.publish_audio_finish(state, Ok(()))
}

#[test]
fn register_assigns_requested_identity() {
    let mut state = ServerState::new();
    let mut session = Session::new();
    register(&mut state, &mut session, "alice", "u-alice");
    assert!(state.users_contains("u-alice"));
    assert_eq!(state.username_of("u-alice").unwrap(), "alice");
}

#[test]
fn register_twice_is_refused() {
    let mut state = ServerState::new();
    let mut session = Session::new();
    register(&mut state, &mut session, "alice", "u-alice");
    let out = session.register(&mut state, "alice".to_string(), "u-other".to_string());
    match &out[0].message {
        ServerMessage::Error { message } => assert_eq!(message, "Already registered"),
        other => panic!("expected Error, got {:?}", other),
    }
    assert!(!state.users_contains("u-other"));
}

#[test]
fn create_room_requires_registration() {
    let mut state = ServerState::new();
    let session = Session::new();
    let out = create_room(&mut state, &session, "r-1");
    match &out[0].message {
        ServerMessage::Error { message } => assert_eq!(message, "Not registered"),
        other => panic!("expected Error, got {:?}", other),
    }
}

#[test]
fn create_room_lists_creator_as_sole_member() {
    let mut state = ServerState::new();
    let mut session = Session::new();
    register(&mut state, &mut session, "alice", "u-alice");
    let out = create_room(&mut state, &session, "r-1");
    match &out[0].message {
        ServerMessage::RoomJoined { room_id, participants } => {
            assert_eq!(room_id, "r-1");
            assert_eq!(participants.len(), 1);
            assert_eq!(participants[0].user_id, "u-alice");
            assert_eq!(participants[0].username, "alice");
        }
        other => panic!("expected RoomJoined, got {:?}", other),
    }
    assert!(state.rooms_contains("r-1"));
    assert_eq!(state.user_room_of("u-alice").unwrap(), "r-1");
}

#[test]
fn join_unknown_room_is_an_error_and_changes_nothing() {
    let mut state = ServerState::new();
    let mut session = Session::new();
    register(&mut state, &mut session, "alice", "u-alice");
    let out = session.join_room(&mut state, "r-missing");
    match &out[0].message {
        ServerMessage::Error { message } => assert_eq!(message, "Room not found"),
        other => panic!("expected Error, got {:?}", other),
    }
    assert!(state.user_room_of("u-alice").is_none());
    assert!(!state.rooms_contains("r-missing"));
}

#[test]
fn join_notifies_each_prior_member_exactly_once() {
    let mut state = ServerState::new();
    let mut alice = Session::new();
    let mut bob = Session::new();
    register(&mut state, &mut alice, "alice", "u-alice");
    register(&mut state, &mut bob, "bob", "u-bob");
    create_room(&mut state, &alice, "r-1");
    let out = bob.join_room(&mut state, "r-1");
    match &out[0].message {
        ServerMessage::RoomJoined { participants, .. } => {
            let ids: Vec<&str> = participants.iter().map(|p| p.user_id.as_str()).collect();
            assert_eq!(ids, ["u-alice", "u-bob"]);
        }
        other => panic!("expected RoomJoined, got {:?}", other),
    }
    let to_alice: Vec<&Delivery> = out
        .iter()
        .filter(|d| matches!(&d.target, SendTarget::User(u) if u == "u-alice"))
        .collect();
    assert_eq!(to_alice.len(), 1);
    match &to_alice[0].message {
        ServerMessage::UserJoined { user_id, username } => {
            assert_eq!(user_id, "u-bob");
            assert_eq!(username, "bob");
        }
        other => panic!("expected UserJoined, got {:?}", other),
    }
}

#[test]
fn leave_room_notifies_remaining_members_and_destroys_empty_rooms() {
    let mut state = ServerState::new();
    let mut alice = Session::new();
    let mut bob = Session::new();
    register(&mut state, &mut alice, "alice", "u-alice");
    register(&mut state, &mut bob, "bob", "u-bob");
    create_room(&mut state, &alice, "r-1");
    bob.join_room(&mut state, "r-1");

    let out = alice.leave_room(&mut state);
    assert!(matches!(out[0].message, ServerMessage::RoomLeft));
    assert!(matches!(out[0].target, SendTarget::Client));
    let to_bob: Vec<&Delivery> = out
        .iter()
        .filter(|d| matches!(&d.target, SendTarget::User(u) if u == "u-bob"))
        .collect();
    assert_eq!(to_bob.len(), 1);
    assert!(matches!(
        &to_bob[0].message,
        ServerMessage::UserLeft { user_id, .. } if user_id == "u-alice"
    ));
    assert!(state.rooms_contains("r-1"));

    let out = bob.leave_room(&mut state);
    assert!(matches!(out[0].message, ServerMessage::RoomLeft));
    assert!(!state.rooms_contains("r-1"));
}

#[test]
fn leave_and_rejoin_restores_membership_at_the_end() {
    let mut state = ServerState::new();
    let mut alice = Session::new();
    let mut bob = Session::new();
    register(&mut state, &mut alice, "alice", "u-alice");
    register(&mut state, &mut bob, "bob", "u-bob");
    create_room(&mut state, &alice, "r-1");
    bob.join_room(&mut state, "r-1");

    alice.leave_room(&mut state);
    let out = alice.join_room(&mut state, "r-1");
    match &out[0].message {
        ServerMessage::RoomJoined { participants, .. } => {
            let ids: Vec<&str> = participants.iter().map(|p| p.user_id.as_str()).collect();
            assert_eq!(ids, ["u-bob", "u-alice"]);
        }
        other => panic!("expected RoomJoined, got {:?}", other),
    }
}

#[test]
fn publish_replies_before_announcing_to_peers() {
    let mut state = ServerState::new();
    let mut alice = Session::new();
    let mut bob = Session::new();
    register(&mut state, &mut alice, "alice", "u-alice");
    register(&mut state, &mut bob, "bob", "u-bob");
    create_room(&mut state, &alice, "r-1");
    bob.join_room(&mut state, "r-1");

    let out = publish(&mut state, &alice, "t-alice");
    let published_at = out
        .iter()
        .position(|d| matches!(d.message, ServerMessage::AudioPublished { .. }))
        .expect("AudioPublished present");
    match &out[published_at].message {
        ServerMessage::AudioPublished { track_id } => assert_eq!(track_id, "t-alice"),
        _ => unreachable!(),
    }
    for (i, d) in out.iter().enumerate() {
        if matches!(d.message, ServerMessage::NewPublisher { .. }) {
            assert!(published_at < i);
            assert!(matches!(&d.target, SendTarget::User(u) if u == "u-bob"));
        }
    }
    assert!(out
        .iter()
        .any(|d| matches!(d.message, ServerMessage::NewPublisher { .. })));
}

#[test]
fn publish_without_track_is_an_error_and_announces_nothing() {
    let mut state = ServerState::new();
    let mut alice = Session::new();
    register(&mut state, &mut alice, "alice", "u-alice");
    alice.create_publisher_check(&state).expect("registered");
    alice.create_publisher_finish(&mut state, Ok("offer-sdp".to_string()));
    alice.publish_audio_check(&state).expect("publisher exists");
    // the inbound track never arrives
    let out = alice.publish_audio_finish(&state, Ok(()));
    assert_eq!(out.len(), 1);
    assert!(matches!(out[0].message, ServerMessage::Error { .. }));
}

#[test]
fn consumer_for_publisher_without_track_is_refused_and_not_registered() {
    let mut state = ServerState::new();
    let mut alice = Session::new();
    let mut bob = Session::new();
    register(&mut state, &mut alice, "alice", "u-alice");
    register(&mut state, &mut bob, "bob", "u-bob");
    alice.create_publisher_check(&state).expect("registered");
    alice.create_publisher_finish(&mut state, Ok("offer-sdp".to_string()));

    let err = bob
        .create_consumer_check(&state, "u-alice", "c-1".to_string())
        .expect_err("no track yet");
    match &err[0].message {
        ServerMessage::Error { message } => {
            assert_eq!(message, "Failed to create consumer: Publisher u-alice has no audio track yet")
        }
        other => panic!("expected Error, got {:?}", other),
    }
    assert_eq!(state.sfu().consumer_count(), 0);
}

#[test]
fn consumer_for_unknown_publisher_is_refused() {
    let mut state = ServerState::new();
    let mut bob = Session::new();
    register(&mut state, &mut bob, "bob", "u-bob");
    let err = bob
        .create_consumer_check(&state, "u-ghost", "c-1".to_string())
        .expect_err("publisher missing");
    match &err[0].message {
        ServerMessage::Error { message } => {
            assert_eq!(message, "Failed to create consumer: Publisher not found: u-ghost")
        }
        other => panic!("expected Error, got {:?}", other),
    }
    assert_eq!(state.sfu().consumer_count(), 0);
}

#[test]
fn two_party_call_establishes_consumers_both_ways() {
    let mut state = ServerState::new();
    let mut alice = Session::new();
    let mut bob = Session::new();
    register(&mut state, &mut alice, "alice", "u-alice");
    register(&mut state, &mut bob, "bob", "u-bob");
    create_room(&mut state, &alice, "r-1");
    publish(&mut state, &alice, "t-alice");

    let join_out = bob.join_room(&mut state, "r-1");
    match &join_out[0].message {
        ServerMessage::RoomJoined { participants, .. } => {
            let ids: Vec<&str> = participants.iter().map(|p| p.user_id.as_str()).collect();
            assert_eq!(ids, ["u-alice", "u-bob"]);
        }
        other => panic!("expected RoomJoined, got {:?}", other),
    }
    let publish_out = publish(&mut state, &bob, "t-bob");
    assert!(publish_out.iter().any(|d| matches!(
        (&d.target, &d.message),
        (SendTarget::User(u), ServerMessage::NewPublisher { user_id, .. })
            if u == "u-alice" && user_id == "u-bob"
    )));

    // each side subscribes to the other
    let plan = bob
        .create_consumer_check(&state, "u-alice", "c-bob-from-alice".to_string())
        .expect("alice is publishing");
    assert_eq!(plan.track_id, "t-alice");
    let out = bob.create_consumer_finish(&mut state, plan, Ok("consumer-offer".to_string()));
    assert!(matches!(
        &out[0].message,
        ServerMessage::ConsumerCreated { consumer_id, publisher_user_id, .. }
            if consumer_id == "c-bob-from-alice" && publisher_user_id == "u-alice"
    ));
    let plan = alice
        .create_consumer_check(&state, "u-bob", "c-alice-from-bob".to_string())
        .expect("bob is publishing");
    alice.create_consumer_finish(&mut state, plan, Ok("consumer-offer".to_string()));

    assert_eq!(state.sfu().consumer_count(), 2);
    assert!(bob.consumer_answer_check(&state, "c-bob-from-alice").is_ok());
    assert!(alice.consumer_answer_check(&state, "c-alice-from-bob").is_ok());
}

#[test]
fn late_joiner_sees_all_participants_and_can_consume() {
    let mut state = ServerState::new();
    let mut alice = Session::new();
    let mut bob = Session::new();
    let mut carol = Session::new();
    register(&mut state, &mut alice, "alice", "u-alice");
    register(&mut state, &mut bob, "bob", "u-bob");
    register(&mut state, &mut carol, "carol", "u-carol");
    create_room(&mut state, &alice, "r-1");
    publish(&mut state, &alice, "t-alice");
    bob.join_room(&mut state, "r-1");
    publish(&mut state, &bob, "t-bob");

    let out = carol.join_room(&mut state, "r-1");
    match &out[0].message {
        ServerMessage::RoomJoined { participants, .. } => {
            let ids: Vec<&str> = participants.iter().map(|p| p.user_id.as_str()).collect();
            assert_eq!(ids, ["u-alice", "u-bob", "u-carol"]);
        }
        other => panic!("expected RoomJoined, got {:?}", other),
    }
    // both sources were announced after publishing, so neither consume fails
    let plan = carol
        .create_consumer_check(&state, "u-alice", "c-carol-alice".to_string())
        .expect("alice published before the announcement");
    carol.create_consumer_finish(&mut state, plan, Ok("offer".to_string()));
    let plan = carol
        .create_consumer_check(&state, "u-bob", "c-carol-bob".to_string())
        .expect("bob published before the announcement");
    carol.create_consumer_finish(&mut state, plan, Ok("offer".to_string()));
    assert_eq!(state.sfu().consumer_count(), 2);
}

#[test]
fn publisher_disconnect_drops_its_consumers_and_notifies_room() {
    let mut state = ServerState::new();
    let mut alice = Session::new();
    let mut bob = Session::new();
    let mut carol = Session::new();
    register(&mut state, &mut alice, "alice", "u-alice");
    register(&mut state, &mut bob, "bob", "u-bob");
    register(&mut state, &mut carol, "carol", "u-carol");
    create_room(&mut state, &alice, "r-1");
    publish(&mut state, &alice, "t-alice");
    bob.join_room(&mut state, "r-1");
    carol.join_room(&mut state, "r-1");
    for (session, cid) in [(&bob, "c-bob"), (&carol, "c-carol")] {
        let plan = session
            .create_consumer_check(&state, "u-alice", cid.to_string())
            .expect("alice is publishing");
        session.create_consumer_finish(&mut state, plan, Ok("offer".to_string()));
    }
    assert_eq!(state.sfu().consumer_count(), 2);

    let (out, teardowns) = alice.disconnect(&mut state);
    // both bound consumers are torn down with the publisher
    assert!(teardowns
        .iter()
        .any(|t| matches!(t, Teardown::Publisher(u) if u == "u-alice")));
    for cid in ["c-bob", "c-carol"] {
        assert!(teardowns
            .iter()
            .any(|t| matches!(t, Teardown::Consumer(c) if c == cid)));
    }
    assert_eq!(state.sfu().consumer_count(), 0);
    assert!(!state.sfu().contains_publisher("u-alice"));
    // UserLeft reaches each remaining member exactly once
    for peer in ["u-bob", "u-carol"] {
        let left: Vec<&Delivery> = out
            .iter()
            .filter(|d| matches!(&d.target, SendTarget::User(u) if u == peer))
            .collect();
        assert_eq!(left.len(), 1);
        assert!(matches!(
            &left[0].message,
            ServerMessage::UserLeft { user_id, .. } if user_id == "u-alice"
        ));
    }
    assert!(!state.users_contains("u-alice"));
}

#[test]
fn reconnect_after_disconnect_leaves_no_trace_of_the_old_identity() {
    let mut state = ServerState::new();
    let mut alice = Session::new();
    register(&mut state, &mut alice, "alice", "u-alice-1");
    create_room(&mut state, &alice, "r-1");
    alice.disconnect(&mut state);
    assert!(!state.users_contains("u-alice-1"));
    assert!(!state.rooms_contains("r-1"));

    // the same client reconnects and registers afresh
    let mut again = Session::new();
    register(&mut state, &mut again, "alice", "u-alice-2");
    assert!(!state.users_contains("u-alice-1"));
    assert!(state.users_contains("u-alice-2"));
}

#[test]
fn malformed_frame_yields_error_and_session_stays_usable() {
    let mut state = ServerState::new();
    let mut session = Session::new();
    let out = invalid_message("unknown variant `nope`");
    match &out[0].message {
        ServerMessage::Error { message } => {
            assert_eq!(message, "Invalid message format: unknown variant `nope`")
        }
        other => panic!("expected Error, got {:?}", other),
    }
    // the session is unaffected and can still register
    register(&mut state, &mut session, "alice", "u-alice");
}

#[test]
fn candidate_for_unknown_consumer_is_dropped_without_reply() {
    let mut state = ServerState::new();
    let mut session = Session::new();
    register(&mut state, &mut session, "alice", "u-alice");
    let step = session.handle_message(
        &mut state,
        ClientMessage::ConsumerIceCandidate {
            consumer_id: "c-ghost".to_string(),
            candidate: "candidate:1".to_string(),
        },
    );
    assert!(step.outputs.is_empty());
    assert!(matches!(step.next, Continuation::Done));
    assert!(state.users_contains("u-alice"));
}

#[test]
fn repeated_publisher_candidates_are_accepted_alike() {
    let mut state = ServerState::new();
    let mut alice = Session::new();
    register(&mut state, &mut alice, "alice", "u-alice");
    alice.create_publisher_check(&state).expect("registered");
    alice.create_publisher_finish(&mut state, Ok("offer-sdp".to_string()));
    for _ in 0..2 {
        let step = alice.handle_message(
            &mut state,
            ClientMessage::PublisherIceCandidate { candidate: "candidate:9".to_string() },
        );
        assert!(step.outputs.is_empty());
        match step.next {
            Continuation::IngestPublisherCandidate { user_id, candidate } => {
                assert_eq!(user_id, "u-alice");
                assert_eq!(candidate, "candidate:9");
            }
            other => panic!("expected an ingestion step, got {:?}", message_kind(&other)),
        }
    }
}

fn message_kind(next: &Continuation) -> &'static str {
    match next {
        Continuation::Done => "Done",
        Continuation::CreatePublisherTransport { .. } => "CreatePublisherTransport",
        Continuation::ApplyPublisherAnswer { .. } => "ApplyPublisherAnswer",
        Continuation::CreateConsumerTransport { .. } => "CreateConsumerTransport",
        Continuation::ApplyConsumerAnswer { .. } => "ApplyConsumerAnswer",
        Continuation::IngestPublisherCandidate { .. } => "IngestPublisherCandidate",
        Continuation::IngestConsumerCandidate { .. } => "IngestConsumerCandidate",
    }
}

#[test]
fn leave_room_keeps_media_peers_until_disconnect() {
    let mut state = ServerState::new();
    let mut alice = Session::new();
    register(&mut state, &mut alice, "alice", "u-alice");
    create_room(&mut state, &alice, "r-1");
    publish(&mut state, &alice, "t-alice");

    let out = alice.leave_room(&mut state);
    assert!(matches!(out[0].message, ServerMessage::RoomLeft));
    // the publisher survives a room leave; only disconnect reclaims it
    assert!(state.sfu().contains_publisher("u-alice"));

    let (_, teardowns) = alice.disconnect(&mut state);
    assert!(teardowns
        .iter()
        .any(|t| matches!(t, Teardown::Publisher(u) if u == "u-alice")));
    assert!(!state.sfu().contains_publisher("u-alice"));
}

#[test]
fn dispatcher_runs_the_register_and_room_flow() {
    let mut state = ServerState::new();
    let mut session = Session::new();
    let step = session.handle_message(
        &mut state,
        ClientMessage::Register { username: "alice".to_string() },
    );
    assert!(matches!(step.next, Continuation::Done));
    let user_id = match &step.outputs[0].message {
        ServerMessage::Registered { user_id } => user_id.clone(),
        other => panic!("expected Registered, got {:?}", other),
    };
    assert_eq!(user_id.chars().count(), 36);
    assert!(state.users_contains(&user_id));

    let step = session.handle_message(&mut state, ClientMessage::CreateRoom);
    let room_id = match &step.outputs[0].message {
        ServerMessage::RoomJoined { room_id, .. } => room_id.clone(),
        other => panic!("expected RoomJoined, got {:?}", other),
    };
    assert!(state.rooms_contains(&room_id));

    let step = session.handle_message(&mut state, ClientMessage::Ping);
    assert!(matches!(step.outputs[0].message, ServerMessage::Pong));

    let step = session.handle_message(&mut state, ClientMessage::CreatePublisher);
    assert!(step.outputs.is_empty());
    assert!(matches!(
        step.next,
        Continuation::CreatePublisherTransport { user_id: ref u, .. } if *u == user_id
    ));
}

#[test]
fn generated_identifiers_have_the_documented_shape() {
    let consumer_id = generate_consumer_id();
    let track_id = generate_track_id();
    assert_eq!(consumer_id.chars().count(), 36);
    assert_eq!(track_id.chars().count(), 36);
}

#[test]
fn consumer_answer_for_unknown_consumer_is_an_error() {
    let mut state = ServerState::new();
    let mut alice = Session::new();
    register(&mut state, &mut alice, "alice", "u-alice");
    let err = alice
        .consumer_answer_check(&state, "c-ghost")
        .expect_err("no such consumer");
    match &err[0].message {
        ServerMessage::Error { message } => {
            assert_eq!(message, "Failed to set consumer answer: Consumer not found: c-ghost")
        }
        other => panic!("expected Error, got {:?}", other),
    }
}

#[test]
fn failed_transport_creation_discards_the_publisher() {
    let mut state = ServerState::new();
    let mut alice = Session::new();
    register(&mut state, &mut alice, "alice", "u-alice");
    alice.create_publisher_check(&state).expect("registered");
    let (out, teardowns) =
        alice.create_publisher_finish(&mut state, Err("ice gathering failed".to_string()));
    match &out[0].message {
        ServerMessage::Error { message } => {
            assert_eq!(message, "Failed to create publisher: ice gathering failed")
        }
        other => panic!("expected Error, got {:?}", other),
    }
    assert!(teardowns.is_empty());
    assert!(!state.sfu().contains_publisher("u-alice"));
}

#[test]
fn failed_consumer_transport_registers_nothing() {
    let mut state = ServerState::new();
    let mut alice = Session::new();
    let mut bob = Session::new();
    register(&mut state, &mut alice, "alice", "u-alice");
    register(&mut state, &mut bob, "bob", "u-bob");
    publish(&mut state, &alice, "t-alice");
    let plan = bob
        .create_consumer_check(&state, "u-alice", "c-1".to_string())
        .expect("alice is publishing");
    let out = bob.create_consumer_finish(&mut state, plan, Err("dtls failure".to_string()));
    match &out[0].message {
        ServerMessage::Error { message } => {
            assert_eq!(message, "Failed to create consumer: dtls failure")
        }
        other => panic!("expected Error, got {:?}", other),
    }
    assert_eq!(state.sfu().consumer_count(), 0);
}

#[test]
fn own_subscriptions_go_when_the_subscriber_disconnects() {
    let mut state = ServerState::new();
    let mut alice = Session::new();
    let mut bob = Session::new();
    register(&mut state, &mut alice, "alice", "u-alice");
    register(&mut state, &mut bob, "bob", "u-bob");
    publish(&mut state, &alice, "t-alice");
    let plan = bob
        .create_consumer_check(&state, "u-alice", "c-bob".to_string())
        .expect("alice is publishing");
    bob.create_consumer_finish(&mut state, plan, Ok("offer".to_string()));
    assert_eq!(state.sfu().consumer_count(), 1);

    let (_, teardowns) = bob.disconnect(&mut state);
    assert!(teardowns
        .iter()
        .any(|t| matches!(t, Teardown::Consumer(c) if c == "c-bob")));
    assert_eq!(state.sfu().consumer_count(), 0);
    // alice's publisher is untouched
    assert!(state.sfu().contains_publisher("u-alice"));
}

#[test]
fn create_room_while_in_a_room_is_refused() {
    let mut state = ServerState::new();
    let mut alice = Session::new();
    register(&mut state, &mut alice, "alice", "u-alice");
    create_room(&mut state, &alice, "r-1");
    let out = create_room(&mut state, &alice, "r-2");
    match &out[0].message {
        ServerMessage::Error { message } => assert_eq!(message, "Already in a room"),
        other => panic!("expected Error, got {:?}", other),
    }
    assert!(!state.rooms_contains("r-2"));
    assert_eq!(state.user_room_of("u-alice").unwrap(), "r-1");
}

#[test]
fn join_while_in_a_room_is_refused() {
    let mut state = ServerState::new();
    let mut alice = Session::new();
    let mut bob = Session::new();
    register(&mut state, &mut alice, "alice", "u-alice");
    register(&mut state, &mut bob, "bob", "u-bob");
    create_room(&mut state, &alice, "r-1");
    create_room(&mut state, &bob, "r-2");
    let out = bob.join_room(&mut state, "r-1");
    match &out[0].message {
        ServerMessage::Error { message } => assert_eq!(message, "Already in a room"),
        other => panic!("expected Error, got {:?}", other),
    }
    assert_eq!(state.user_room_of("u-bob").unwrap(), "r-2");
}

#[test]
fn leave_without_a_room_is_refused() {
    let mut state = ServerState::new();
    let mut alice = Session::new();
    register(&mut state, &mut alice, "alice", "u-alice");
    let out = alice.leave_room(&mut state);
    match &out[0].message {
        ServerMessage::Error { message } => assert_eq!(message, "Not in a room"),
        other => panic!("expected Error, got {:?}", other),
    }
}

#[test]
fn publish_without_a_publisher_is_refused() {
    let mut state = ServerState::new();
    let mut alice = Session::new();
    register(&mut state, &mut alice, "alice", "u-alice");
    let err = alice.publish_audio_check(&state).expect_err("no publisher yet");
    match &err[0].message {
        ServerMessage::Error { message } => assert_eq!(
            message,
            "Failed to set publisher answer: Publisher not found for user: u-alice"
        ),
        other => panic!("expected Error, got {:?}", other),
    }
}

#[test]
fn unregistered_sessions_are_refused_everywhere() {
    let mut state = ServerState::new();
    let session = Session::new();
    for err in [
        session.create_publisher_check(&state).err().unwrap(),
        session.publish_audio_check(&state).err().unwrap(),
        session
            .create_consumer_check(&state, "u-any", "c-1".to_string())
            .err()
            .unwrap(),
        session.consumer_answer_check(&state, "c-1").err().unwrap(),
    ] {
        match &err[0].message {
            ServerMessage::Error { message } => assert_eq!(message, "Not registered"),
            other => panic!("expected Error, got {:?}", other),
        }
    }
    assert!(session.publisher_candidate_target(&state).is_none());
}

#[test]
fn dispatcher_applies_answers_through_continuations() {
    let mut state = ServerState::new();
    let mut alice = Session::new();
    let mut bob = Session::new();
    register(&mut state, &mut alice, "alice", "u-alice");
    register(&mut state, &mut bob, "bob", "u-bob");
    publish(&mut state, &alice, "t-alice");

    let step = alice.handle_message(
        &mut state,
        ClientMessage::PublishAudio { sdp: "answer-sdp".to_string() },
    );
    assert!(matches!(
        step.next,
        Continuation::ApplyPublisherAnswer { ref user_id, ref sdp }
            if user_id == "u-alice" && sdp == "answer-sdp"
    ));

    let step = bob.handle_message(
        &mut state,
        ClientMessage::CreateConsumer { publisher_user_id: "u-alice".to_string() },
    );
    let plan = match step.next {
        Continuation::CreateConsumerTransport { plan } => plan,
        other => panic!("expected a consumer transport step, got {:?}", message_kind(&other)),
    };
    assert_eq!(plan.publisher_user_id, "u-alice");
    assert_eq!(plan.subscriber_user_id, "u-bob");
    assert_eq!(plan.track_id, "t-alice");
    let consumer_id = plan.consumer_id.clone();
    bob.create_consumer_finish(&mut state, plan, Ok("offer".to_string()));

    let step = bob.handle_message(
        &mut state,
        ClientMessage::ConsumerAnswer { consumer_id: consumer_id.clone(), sdp: "a".to_string() },
    );
    assert!(matches!(
        step.next,
        Continuation::ApplyConsumerAnswer { consumer_id: ref c, .. } if *c == consumer_id
    ));
}

#[test]
fn replacing_a_publisher_drops_the_consumers_bound_to_the_old_one() {
    let mut state = ServerState::new();
    let mut alice = Session::new();
    let mut bob = Session::new();
    register(&mut state, &mut alice, "alice", "u-alice");
    register(&mut state, &mut bob, "bob", "u-bob");
    publish(&mut state, &alice, "t-alice");
    let plan = bob
        .create_consumer_check(&state, "u-alice", "c-bob".to_string())
        .expect("alice is publishing");
    bob.create_consumer_finish(&mut state, plan, Ok("offer".to_string()));
    assert_eq!(state.sfu().consumer_count(), 1);

    // alice creates a fresh publisher; the old one and its consumers go
    alice.create_publisher_check(&state).expect("registered");
    let (out, teardowns) = alice.create_publisher_finish(&mut state, Ok("offer-2".to_string()));
    assert!(matches!(out[0].message, ServerMessage::PublisherCreated { .. }));
    assert!(teardowns
        .iter()
        .any(|t| matches!(t, Teardown::Publisher(u) if u == "u-alice")));
    assert!(teardowns
        .iter()
        .any(|t| matches!(t, Teardown::Consumer(c) if c == "c-bob")));
    assert_eq!(state.sfu().consumer_count(), 0);
    assert!(state.sfu().contains_publisher("u-alice"));
}

#[test]
fn candidate_lookup_errors_name_the_missing_peer() {
    let mut state = ServerState::new();
    let mut alice = Session::new();
    register(&mut state, &mut alice, "alice", "u-alice");
    assert_eq!(
        state.sfu().add_publisher_ice_candidate("u-ghost").unwrap_err(),
        "Publisher not found: u-ghost"
    );
    assert_eq!(
        state.sfu().add_consumer_ice_candidate("c-ghost").unwrap_err(),
        "Consumer not found: c-ghost"
    );
    alice.create_publisher_check(&state).expect("registered");
    alice.create_publisher_finish(&mut state, Ok("offer-sdp".to_string()));
    assert!(state.sfu().add_publisher_ice_candidate("u-alice").is_ok());
}
