//! The control-channel protocol: messages clients send, messages the
//! server sends back, and spec-level mirrors of both so that contracts
//! can state exactly which messages an operation produces.

use vstd::prelude::*;

verus! {

/// A room participant as reported to clients: identity plus display name.
#[derive(Clone, Debug)]
pub struct ParticipantInfo {
    pub user_id: String,
    pub username: String,
}

/// Spec-level mirror of `ParticipantInfo`.
#[verifier::ext_equal]
pub struct ParticipantModel {
    pub user_id: Seq<char>,
    pub username: Seq<char>,
}

impl View for ParticipantInfo {
    type V = ParticipantModel;

    open spec fn view(&self) -> ParticipantModel {
        ParticipantModel { user_id: self.user_id@, username: self.username@ }
    }
}

impl DeepView for ParticipantInfo {
    type V = ParticipantModel;

    open spec fn deep_view(&self) -> ParticipantModel {
        self@
    }
}

/// Control messages a client sends over its session channel.
#[derive(Clone, Debug)]
pub enum ClientMessage {
    Register { username: String },
    CreateRoom,
    JoinRoom { room_id: String },
    LeaveRoom,
    Ping,
    CreatePublisher,
    PublishAudio { sdp: String },
    CreateConsumer { publisher_user_id: String },
    ConsumerAnswer { consumer_id: String, sdp: String },
    PublisherIceCandidate { candidate: String },
    ConsumerIceCandidate { consumer_id: String, candidate: String },
}

/// Control messages the server sends to clients.
#[derive(Clone, Debug)]
pub enum ServerMessage {
    Registered { user_id: String },
    RoomJoined { room_id: String, participants: Vec<ParticipantInfo> },
    UserJoined { username: String, user_id: String },
    UserLeft { username: String, user_id: String },
    RoomLeft,
    Error { message: String },
    Pong,
    PublisherCreated { sdp: String },
    AudioPublished { track_id: String },
    ConsumerCreated { consumer_id: String, publisher_user_id: String, sdp: String },
    NewPublisher { user_id: String, username: String },
}

/// Spec-level mirror of `ServerMessage`.
#[verifier::ext_equal]
pub enum MessageModel {
    Registered { user_id: Seq<char> },
    RoomJoined { room_id: Seq<char>, participants: Seq<ParticipantModel> },
    UserJoined { username: Seq<char>, user_id: Seq<char> },
    UserLeft { username: Seq<char>, user_id: Seq<char> },
    RoomLeft,
    Error { message: Seq<char> },
    Pong,
    PublisherCreated { sdp: Seq<char> },
    AudioPublished { track_id: Seq<char> },
    ConsumerCreated { consumer_id: Seq<char>, publisher_user_id: Seq<char>, sdp: Seq<char> },
    NewPublisher { user_id: Seq<char>, username: Seq<char> },
}

impl View for ServerMessage {
    type V = MessageModel;

    open spec fn view(&self) -> MessageModel {
        match self {
            ServerMessage::Registered { user_id } => MessageModel::Registered { user_id: user_id@ },
            ServerMessage::RoomJoined { room_id, participants } => MessageModel::RoomJoined {
                room_id: room_id@,
                participants: participants.deep_view(),
            },
            ServerMessage::UserJoined { username, user_id } => MessageModel::UserJoined {
                username: username@,
                user_id: user_id@,
            },
            ServerMessage::UserLeft { username, user_id } => MessageModel::UserLeft {
                username: username@,
                user_id: user_id@,
            },
            ServerMessage::RoomLeft => MessageModel::RoomLeft,
            ServerMessage::Error { message } => MessageModel::Error { message: message@ },
            ServerMessage::Pong => MessageModel::Pong,
            ServerMessage::PublisherCreated { sdp } => MessageModel::PublisherCreated { sdp: sdp@ },
            ServerMessage::AudioPublished { track_id } => MessageModel::AudioPublished {
                track_id: track_id@,
            },
            ServerMessage::ConsumerCreated { consumer_id, publisher_user_id, sdp } => {
                MessageModel::ConsumerCreated {
                    consumer_id: consumer_id@,
                    publisher_user_id: publisher_user_id@,
                    sdp: sdp@,
                }
            },
            ServerMessage::NewPublisher { user_id, username } => MessageModel::NewPublisher {
                user_id: user_id@,
                username: username@,
            },
        }
    }
}

impl DeepView for ServerMessage {
    type V = MessageModel;

    open spec fn deep_view(&self) -> MessageModel {
        self@
    }
}

/// Where one outbound message goes: back to this session's own client,
/// or to the outbound sink of another registered user.
#[derive(Clone, Debug)]
pub enum SendTarget {
    Client,
    User(String),
}

/// Spec-level mirror of `SendTarget`.
#[verifier::ext_equal]
pub enum TargetModel {
    Client,
    User(Seq<char>),
}

impl View for SendTarget {
    type V = TargetModel;

    open spec fn view(&self) -> TargetModel {
        match self {
            SendTarget::Client => TargetModel::Client,
            SendTarget::User(user_id) => TargetModel::User(user_id@),
        }
    }
}

/// One outbound control message together with its destination.
#[derive(Clone, Debug)]
pub struct Delivery {
    pub target: SendTarget,
    pub message: ServerMessage,
}

/// Spec-level mirror of `Delivery`.
#[verifier::ext_equal]
pub struct DeliveryModel {
    pub target: TargetModel,
    pub message: MessageModel,
}

impl View for Delivery {
    type V = DeliveryModel;

    open spec fn view(&self) -> DeliveryModel {
        DeliveryModel { target: self.target@, message: self.message@ }
    }
}

impl DeepView for Delivery {
    type V = DeliveryModel;

    open spec fn deep_view(&self) -> DeliveryModel {
        self@
    }
}

/// Spec-level shape of a reply to the session's own client.
pub open spec fn to_client(message: MessageModel) -> DeliveryModel {
    DeliveryModel { target: TargetModel::Client, message }
}

/// Spec-level shape of an error reply to the session's own client.
pub open spec fn error_to_client(message: Seq<char>) -> DeliveryModel {
    to_client(MessageModel::Error { message })
}

/// Builds an error reply to the session's own client.
pub fn client_error(message: String) -> (d: Delivery)
    ensures
        d@ == error_to_client(message@),
{
    Delivery { target: SendTarget::Client, message: ServerMessage::Error { message } }
}

/// Builds a reply to the session's own client.
pub fn reply(message: ServerMessage) -> (d: Delivery)
    ensures
        d@ == to_client(message@),
{
    Delivery { target: SendTarget::Client, message }
}

/// Builds a single error reply to the session's own client as the whole
/// output of an operation.
pub fn error_out(message: String) -> (out: Vec<Delivery>)
    ensures
        out.deep_view() == seq![error_to_client(message@)],
{
    let mut out: Vec<Delivery> = Vec::new();
    out.push(client_error(message));
    proof {
        assert(out.deep_view() =~= seq![error_to_client(message@)]);
    }
    out
}

} // verus!
