//! Wire message taxonomy: the request/response pairs of the HTTP interface
//! and the tagged unions exchanged over the persistent connection, together
//! with their mathematical views.
//!
//! These are plain data carriers.  The transport layer around the library
//! owns their byte-level encoding; the library consumes and produces the
//! already-decoded values.
use vstd::prelude::*;

verus! {

// ---------------------------------------------------------------------------
// Account / authentication requests and responses
// ---------------------------------------------------------------------------

#[derive(Debug, Clone, PartialEq, Eq)]
pub struct RegisterRequest {
    pub user_id: String,
    pub password: String,
}

#[derive(Debug, Clone, PartialEq, Eq)]
pub struct LoginRequest {
    pub user_id: String,
    pub password: String,
}

/// The identity travels in the transport's auth token, so no body is needed.
#[derive(Debug, Clone, PartialEq, Eq)]
pub struct LogoutRequest {}

/// The identity travels in the transport's auth token, so no body is needed.
#[derive(Debug, Clone, PartialEq, Eq)]
pub struct DeleteAccountRequest {}

#[derive(Debug, Clone, PartialEq, Eq)]
pub struct AuthSuccessResponse {
    pub token: String,
    pub user_id: String,
}

// ---------------------------------------------------------------------------
// Room management requests
// ---------------------------------------------------------------------------

#[derive(Debug, Clone, PartialEq, Eq)]
pub struct CreateRoomRequest {
    pub room_id: String,
    pub room_password: String,
}

#[derive(Debug, Clone, PartialEq, Eq)]
pub struct JoinRoomRequest {
    pub room_id: String,
    pub room_password: String,
}

#[derive(Debug, Clone, PartialEq, Eq)]
pub struct DeleteRoomRequest {
    pub room_id: String,
}

#[derive(Debug, Clone, PartialEq, Eq)]
pub struct GetChatHistoryRequest {
    pub room_id: String,
    pub limit: Option<usize>,
    pub before_timestamp: Option<String>,
}

#[derive(Debug, Clone, PartialEq, Eq)]
pub struct ListRoomsRequest {
    pub only_active: bool,
}

#[derive(Debug, Clone, PartialEq, Eq)]
pub struct ListRoomUsersRequest {
    pub room_id: String,
}

// ---------------------------------------------------------------------------
// Room management responses
// ---------------------------------------------------------------------------

#[derive(Debug, Clone, PartialEq, Eq)]
pub struct CreateRoomResponse {
    pub room_id: String,
    pub created_at: String,
}

#[derive(Debug, Clone, PartialEq, Eq)]
pub struct JoinRoomResponse {
    pub room_id: String,
    pub chat_history: Vec<ChatMessage>,
    pub active_users: Vec<String>,
}

#[derive(Debug, Clone, PartialEq, Eq)]
pub struct GetChatHistoryResponse {
    pub room_id: String,
    pub chat_history: Vec<ChatMessage>,
    pub more_messages: bool,
}

#[derive(Debug, Clone, PartialEq, Eq)]
pub struct ListRoomsResponse {
    pub rooms: Vec<RoomInfo>,
}

#[derive(Debug, Clone, PartialEq, Eq)]
pub struct ListRoomUsersResponse {
    pub room_id: String,
    pub active_users: Vec<String>,
}

/// Generic confirmation used for logout, account deletion and room deletion.
#[derive(Debug, Clone, PartialEq, Eq)]
pub struct SuccessResponse {
    pub message: String,
}

// ---------------------------------------------------------------------------
// Persistent-connection messages
// ---------------------------------------------------------------------------

/// Commands a client sends over its persistent connection.
#[derive(Debug, Clone, PartialEq, Eq)]
pub enum ClientWsMessage {
    LeaveRoom { room_id: String },
    KickUser { room_id: String, user_id: String },
    SendMessage { room_id: String, content: String },
    Ping { timestamp: String },
}

/// Events the server delivers to a connected client.
#[derive(Debug, PartialEq, Eq)]
pub enum ServerWsMessage {
    RoomDeleted { room_id: String },
    UserJoined { room_id: String, user_id: String },
    UserLeft { room_id: String, user_id: String },
    UserKicked { room_id: String, user_id: String },
    MessageBroadcast(ChatMessage),
    Pong { timestamp: String },
    Error { error_msg: String },
}

/// One chat message as fanned out to a room.  Immutable once constructed.
#[derive(Debug, PartialEq, Eq)]
pub struct ChatMessage {
    pub room_id: String,
    pub user_id: String,
    pub message_id: String,
    pub content: String,
    pub timestamp: String,
}

#[derive(Debug, Clone, PartialEq, Eq)]
pub struct RoomInfo {
    pub room_id: String,
    pub owner: String,
    pub users_count: usize,
}

/// Error taxonomy reported to callers.  Every variant is recoverable: it is
/// returned to the requesting client without tearing its connection down.
#[derive(Debug, Clone, PartialEq, Eq)]
pub enum ErrorResponse {
    AuthenticationFailed { message: String },
    UserAlreadyExists { user_id: String },
    UserNotFound { user_id: String },
    InvalidPassword { message: String },
    RoomNotFound { room_id: String },
    RoomAlreadyExists { room_id: String },
    NotInRoom { room_id: String },
    InvalidPermissions { message: String },
    ServerError { message: String },
}

impl Clone for ChatMessage {
    /// Copies every field; the copy equals the original.
    fn clone(&self) -> (res: Self)
        ensures
            res == *self,
    {
        ChatMessage {
            room_id: self.room_id.clone(),
            user_id: self.user_id.clone(),
            message_id: self.message_id.clone(),
            content: self.content.clone(),
            timestamp: self.timestamp.clone(),
        }
    }
}

impl Clone for ServerWsMessage {
    /// Copies the variant and its fields; the copy equals the original.
    fn clone(&self) -> (res: Self)
        ensures
            res == *self,
    {
        match self {
            ServerWsMessage::RoomDeleted { room_id } => ServerWsMessage::RoomDeleted {
                room_id: room_id.clone(),
            },
            ServerWsMessage::UserJoined { room_id, user_id } => ServerWsMessage::UserJoined {
                room_id: room_id.clone(),
                user_id: user_id.clone(),
            },
            ServerWsMessage::UserLeft { room_id, user_id } => ServerWsMessage::UserLeft {
                room_id: room_id.clone(),
                user_id: user_id.clone(),
            },
            ServerWsMessage::UserKicked { room_id, user_id } => ServerWsMessage::UserKicked {
                room_id: room_id.clone(),
                user_id: user_id.clone(),
            },
            ServerWsMessage::MessageBroadcast(m) => ServerWsMessage::MessageBroadcast(m.clone()),
            ServerWsMessage::Pong { timestamp } => ServerWsMessage::Pong {
                timestamp: timestamp.clone(),
            },
            ServerWsMessage::Error { error_msg } => ServerWsMessage::Error {
                error_msg: error_msg.clone(),
            },
        }
    }
}

// ---------------------------------------------------------------------------
// Mathematical views
// ---------------------------------------------------------------------------

/// View of a [`ChatMessage`]: every field as a sequence of characters.
pub struct ChatMessageView {
    pub room_id: Seq<char>,
    pub user_id: Seq<char>,
    pub message_id: Seq<char>,
    pub content: Seq<char>,
    pub timestamp: Seq<char>,
}

impl View for ChatMessage {
    type V = ChatMessageView;

    open spec fn view(&self) -> ChatMessageView {
        ChatMessageView {
            room_id: self.room_id@,
            user_id: self.user_id@,
            message_id: self.message_id@,
            content: self.content@,
            timestamp: self.timestamp@,
        }
    }
}

/// View of a [`ServerWsMessage`]: the same taxonomy over character sequences.
pub enum ServerMsgView {
    RoomDeleted { room_id: Seq<char> },
    UserJoined { room_id: Seq<char>, user_id: Seq<char> },
    UserLeft { room_id: Seq<char>, user_id: Seq<char> },
    UserKicked { room_id: Seq<char>, user_id: Seq<char> },
    MessageBroadcast(ChatMessageView),
    Pong { timestamp: Seq<char> },
    Error { error_msg: Seq<char> },
}

impl View for ServerWsMessage {
    type V = ServerMsgView;

    open spec fn view(&self) -> ServerMsgView {
        match self {
            ServerWsMessage::RoomDeleted { room_id } => ServerMsgView::RoomDeleted {
                room_id: room_id@,
            },
            ServerWsMessage::UserJoined { room_id, user_id } => ServerMsgView::UserJoined {
                room_id: room_id@,
                user_id: user_id@,
            },
            ServerWsMessage::UserLeft { room_id, user_id } => ServerMsgView::UserLeft {
                room_id: room_id@,
                user_id: user_id@,
            },
            ServerWsMessage::UserKicked { room_id, user_id } => ServerMsgView::UserKicked {
                room_id: room_id@,
                user_id: user_id@,
            },
            ServerWsMessage::MessageBroadcast(m) => ServerMsgView::MessageBroadcast(m@),
            ServerWsMessage::Pong { timestamp } => ServerMsgView::Pong { timestamp: timestamp@ },
            ServerWsMessage::Error { error_msg } => ServerMsgView::Error {
                error_msg: error_msg@,
            },
        }
    }
}

/// View of a [`RoomInfo`]: the id and owner as character sequences, the
/// member count as a natural number.
pub struct RoomInfoView {
    pub room_id: Seq<char>,
    pub owner: Seq<char>,
    pub users_count: nat,
}

impl View for RoomInfo {
    type V = RoomInfoView;

    open spec fn view(&self) -> RoomInfoView {
        RoomInfoView {
            room_id: self.room_id@,
            owner: self.owner@,
            users_count: self.users_count as nat,
        }
    }
}

/// View of a [`ClientWsMessage`].
pub enum ClientMsgView {
    LeaveRoom { room_id: Seq<char> },
    KickUser { room_id: Seq<char>, user_id: Seq<char> },
    SendMessage { room_id: Seq<char>, content: Seq<char> },
    Ping { timestamp: Seq<char> },
}

impl View for ClientWsMessage {
    type V = ClientMsgView;

    open spec fn view(&self) -> ClientMsgView {
        match self {
            ClientWsMessage::LeaveRoom { room_id } => ClientMsgView::LeaveRoom {
                room_id: room_id@,
            },
            ClientWsMessage::KickUser { room_id, user_id } => ClientMsgView::KickUser {
                room_id: room_id@,
                user_id: user_id@,
            },
            ClientWsMessage::SendMessage { room_id, content } => ClientMsgView::SendMessage {
                room_id: room_id@,
                content: content@,
            },
            ClientWsMessage::Ping { timestamp } => ClientMsgView::Ping { timestamp: timestamp@ },
        }
    }
}

} // verus!
