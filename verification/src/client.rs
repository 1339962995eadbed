//! Client-side logic: credential policy, command parsing, and the decisions
//! a connected client takes on each event it receives.  The terminal loop
//! around these functions only reads lines, splits them into whitespace
//! tokens, prints what a decision names, and performs the transport calls.
use vstd::prelude::*;

use crate::messages::ServerMsgView;
use crate::messages::ServerWsMessage;

verus! {

// ---------------------------------------------------------------------------
// Credential policy
// ---------------------------------------------------------------------------

/// Whether a character has the Unicode uppercase property; a function of the
/// character alone.
pub uninterp spec fn uppercase_char(c: char) -> bool;

/// Relies on char::is_uppercase: the Unicode uppercase property, a function
/// of the character alone.
#[verifier::external_body]
fn char_is_uppercase(c: char) -> (r: bool)
    ensures
        r == uppercase_char(c),
{
    c.is_uppercase()
}

/// Whether a character is Unicode alphanumeric; a function of the character
/// alone.
pub uninterp spec fn alphanumeric_char(c: char) -> bool;

/// Relies on char::is_alphanumeric: the Unicode alphanumeric property, a
/// function of the character alone.
#[verifier::external_body]
fn char_is_alphanumeric(c: char) -> (r: bool)
    ensures
        r == alphanumeric_char(c),
{
    c.is_alphanumeric()
}

/// The password policy: at least eight characters, at least one uppercase
/// letter, at least one character that is not alphanumeric.
pub open spec fn password_ok(p: Seq<char>) -> bool {
    &&& p.len() >= 8
    &&& exists|t: int| 0 <= t < p.len() && uppercase_char(#[trigger] p[t])
    &&& exists|t: int| 0 <= t < p.len() && !alphanumeric_char(#[trigger] p[t])
}

/// Checks a candidate password against the policy.
pub fn password_meets_policy(p: &str) -> (r: bool)
    ensures
        r == password_ok(p@),
{
    let n = p.unicode_len();
    let mut has_upper = false;
    let mut has_special = false;
    let mut k: usize = 0;
    while k < n
        invariant
            n == p@.len(),
            k <= n,
            has_upper <==> exists|t: int| 0 <= t < k && uppercase_char(#[trigger] p@[t]),
            has_special <==> exists|t: int| 0 <= t < k && !alphanumeric_char(#[trigger] p@[t]),
        decreases n - k,
    {
        let c = p.get_char(k);
        if char_is_uppercase(c) {
            has_upper = true;
        }
        if !char_is_alphanumeric(c) {
            has_special = true;
        }
        k = k + 1;
    }
    n >= 8 && has_upper && has_special
}

/// A usable username: nonempty and not beginning with the command marker.
pub open spec fn username_ok(u: Seq<char>) -> bool {
    u.len() > 0 && u[0] != '/'
}

/// Checks a candidate username.
pub fn username_valid(u: &str) -> (r: bool)
    ensures
        r == username_ok(u@),
{
    let n = u.unicode_len();
    if n == 0 {
        return false;
    }
    let c = u.get_char(0);
    !(c == '/')
}

// ---------------------------------------------------------------------------
// Command parsing
// ---------------------------------------------------------------------------

/// The views of a token list.
pub open spec fn token_views(args: Seq<String>) -> Seq<Seq<char>> {
    args.map_values(|s: String| s@)
}

/// A command typed in the lobby.
#[derive(Debug, PartialEq, Eq)]
pub enum LobbyCommand {
    Join { room_id: String, password: String },
    AllRooms,
    ActiveRooms,
    Create { room_id: String, password: String },
    Delete { room_id: String },
    Logout,
    Quit,
    Help,
    /// A known verb with too few arguments: show its usage line.
    Usage,
    Unknown,
}

/// View of a [`LobbyCommand`].
pub enum LobbyCommandView {
    Join { room_id: Seq<char>, password: Seq<char> },
    AllRooms,
    ActiveRooms,
    Create { room_id: Seq<char>, password: Seq<char> },
    Delete { room_id: Seq<char> },
    Logout,
    Quit,
    Help,
    Usage,
    Unknown,
}

impl View for LobbyCommand {
    type V = LobbyCommandView;

    open spec fn view(&self) -> LobbyCommandView {
        match self {
            LobbyCommand::Join { room_id, password } => LobbyCommandView::Join {
                room_id: room_id@,
                password: password@,
            },
            LobbyCommand::AllRooms => LobbyCommandView::AllRooms,
            LobbyCommand::ActiveRooms => LobbyCommandView::ActiveRooms,
            LobbyCommand::Create { room_id, password } => LobbyCommandView::Create {
                room_id: room_id@,
                password: password@,
            },
            LobbyCommand::Delete { room_id } => LobbyCommandView::Delete { room_id: room_id@ },
            LobbyCommand::Logout => LobbyCommandView::Logout,
            LobbyCommand::Quit => LobbyCommandView::Quit,
            LobbyCommand::Help => LobbyCommandView::Help,
            LobbyCommand::Usage => LobbyCommandView::Usage,
            LobbyCommand::Unknown => LobbyCommandView::Unknown,
        }
    }
}

/// What a token list means in the lobby.
pub open spec fn parse_lobby_spec(args: Seq<Seq<char>>) -> LobbyCommandView {
    if args.len() == 0 {
        LobbyCommandView::Unknown
    } else if args[0] == "/join"@ {
        if args.len() >= 3 {
            LobbyCommandView::Join { room_id: args[1], password: args[2] }
        } else {
            LobbyCommandView::Usage
        }
    } else if args[0] == "/all_rooms"@ {
        LobbyCommandView::AllRooms
    } else if args[0] == "/active_rooms"@ {
        LobbyCommandView::ActiveRooms
    } else if args[0] == "/create"@ {
        if args.len() >= 3 {
            LobbyCommandView::Create { room_id: args[1], password: args[2] }
        } else {
            LobbyCommandView::Usage
        }
    } else if args[0] == "/delete"@ {
        if args.len() >= 2 {
            LobbyCommandView::Delete { room_id: args[1] }
        } else {
            LobbyCommandView::Usage
        }
    } else if args[0] == "/logout"@ {
        LobbyCommandView::Logout
    } else if args[0] == "/quit"@ {
        LobbyCommandView::Quit
    } else if args[0] == "/help"@ {
        LobbyCommandView::Help
    } else {
        LobbyCommandView::Unknown
    }
}

/// Compares a token with a literal verb.
fn is_verb(tok: &String, verb: &str) -> (r: bool)
    ensures
        r == (tok@ == verb@),
{
    let v = verb.to_string();
    proof {
        vstd::string::to_string_from_display_ensures_for_str(verb, v);
    }
    *tok == v
}

/// Parses one whitespace-tokenized lobby line.
pub fn parse_lobby_command(args: &Vec<String>) -> (c: LobbyCommand)
    ensures
        c@ == parse_lobby_spec(token_views(args@)),
{
    if args.len() == 0 {
        return LobbyCommand::Unknown;
    }
    let verb = &args[0];
    if is_verb(verb, "/join") {
        if args.len() >= 3 {
            LobbyCommand::Join { room_id: args[1].clone(), password: args[2].clone() }
        } else {
            LobbyCommand::Usage
        }
    } else if is_verb(verb, "/all_rooms") {
        LobbyCommand::AllRooms
    } else if is_verb(verb, "/active_rooms") {
        LobbyCommand::ActiveRooms
    } else if is_verb(verb, "/create") {
        if args.len() >= 3 {
            LobbyCommand::Create { room_id: args[1].clone(), password: args[2].clone() }
        } else {
            LobbyCommand::Usage
        }
    } else if is_verb(verb, "/delete") {
        if args.len() >= 2 {
            LobbyCommand::Delete { room_id: args[1].clone() }
        } else {
            LobbyCommand::Usage
        }
    } else if is_verb(verb, "/logout") {
        LobbyCommand::Logout
    } else if is_verb(verb, "/quit") {
        LobbyCommand::Quit
    } else if is_verb(verb, "/help") {
        LobbyCommand::Help
    } else {
        LobbyCommand::Unknown
    }
}

/// A command typed while in a room.
#[derive(Debug, PartialEq, Eq)]
pub enum RoomCommand {
    Leave,
    Help,
    ActiveUsers,
    Kick { user_id: String },
    /// A kick without a target: show its usage line.
    KickUsage,
    Quit,
    /// Anything that is no command is a chat message: the whole line.
    Message { content: String },
}

/// View of a [`RoomCommand`].
pub enum RoomCommandView {
    Leave,
    Help,
    ActiveUsers,
    Kick { user_id: Seq<char> },
    KickUsage,
    Quit,
    Message { content: Seq<char> },
}

impl View for RoomCommand {
    type V = RoomCommandView;

    open spec fn view(&self) -> RoomCommandView {
        match self {
            RoomCommand::Leave => RoomCommandView::Leave,
            RoomCommand::Help => RoomCommandView::Help,
            RoomCommand::ActiveUsers => RoomCommandView::ActiveUsers,
            RoomCommand::Kick { user_id } => RoomCommandView::Kick { user_id: user_id@ },
            RoomCommand::KickUsage => RoomCommandView::KickUsage,
            RoomCommand::Quit => RoomCommandView::Quit,
            RoomCommand::Message { content } => RoomCommandView::Message { content: content@ },
        }
    }
}

/// What a line means while in a room: `line` is the whole trimmed line,
/// `args` its whitespace tokens.  A line whose first token is no known verb
/// is sent as a chat message.
pub open spec fn parse_room_spec(line: Seq<char>, args: Seq<Seq<char>>) -> RoomCommandView {
    if args.len() == 0 {
        RoomCommandView::Message { content: line }
    } else if args[0] == "/leave"@ {
        RoomCommandView::Leave
    } else if args[0] == "/help"@ {
        RoomCommandView::Help
    } else if args[0] == "/active_users"@ {
        RoomCommandView::ActiveUsers
    } else if args[0] == "/kick"@ {
        if args.len() >= 2 {
            RoomCommandView::Kick { user_id: args[1] }
        } else {
            RoomCommandView::KickUsage
        }
    } else if args[0] == "/quit"@ {
        RoomCommandView::Quit
    } else {
        RoomCommandView::Message { content: line }
    }
}

/// Parses one line typed while in a room.
pub fn parse_room_command(line: &String, args: &Vec<String>) -> (c: RoomCommand)
    ensures
        c@ == parse_room_spec(line@, token_views(args@)),
{
    if args.len() == 0 {
        return RoomCommand::Message { content: line.clone() };
    }
    let verb = &args[0];
    if is_verb(verb, "/leave") {
        RoomCommand::Leave
    } else if is_verb(verb, "/help") {
        RoomCommand::Help
    } else if is_verb(verb, "/active_users") {
        RoomCommand::ActiveUsers
    } else if is_verb(verb, "/kick") {
        if args.len() >= 2 {
            RoomCommand::Kick { user_id: args[1].clone() }
        } else {
            RoomCommand::KickUsage
        }
    } else if is_verb(verb, "/quit") {
        RoomCommand::Quit
    } else {
        RoomCommand::Message { content: line.clone() }
    }
}

// ---------------------------------------------------------------------------
// Reacting to room events
// ---------------------------------------------------------------------------

/// What a connected client does with one received event.
#[derive(Debug, PartialEq, Eq)]
pub enum RoomEventAction {
    /// Print a service notice carried as a chat message.
    SystemNote { content: String },
    /// Print another member's chat message.
    ShowMessage { timestamp: String, user_id: String, content: String },
    /// Announce that someone joined.
    ShowJoined { user_id: String },
    /// Announce that someone left.
    ShowLeft { user_id: String },
    /// Announce that someone else was kicked.
    ShowKicked { user_id: String },
    /// This client was kicked: return to the lobby.
    ExitKicked,
    /// This client's room was deleted: return to the lobby.
    ExitDeleted,
    /// Print a reported error.
    ShowError { error_msg: String },
    /// Nothing to do.
    Ignore,
}

/// View of a [`RoomEventAction`].
pub enum RoomEventActionView {
    SystemNote { content: Seq<char> },
    ShowMessage { timestamp: Seq<char>, user_id: Seq<char>, content: Seq<char> },
    ShowJoined { user_id: Seq<char> },
    ShowLeft { user_id: Seq<char> },
    ShowKicked { user_id: Seq<char> },
    ExitKicked,
    ExitDeleted,
    ShowError { error_msg: Seq<char> },
    Ignore,
}

impl View for RoomEventAction {
    type V = RoomEventActionView;

    open spec fn view(&self) -> RoomEventActionView {
        match self {
            RoomEventAction::SystemNote { content } => RoomEventActionView::SystemNote {
                content: content@,
            },
            RoomEventAction::ShowMessage { timestamp, user_id, content } => RoomEventActionView::ShowMessage {
                timestamp: timestamp@,
                user_id: user_id@,
                content: content@,
            },
            RoomEventAction::ShowJoined { user_id } => RoomEventActionView::ShowJoined {
                user_id: user_id@,
            },
            RoomEventAction::ShowLeft { user_id } => RoomEventActionView::ShowLeft {
                user_id: user_id@,
            },
            RoomEventAction::ShowKicked { user_id } => RoomEventActionView::ShowKicked {
                user_id: user_id@,
            },
            RoomEventAction::ExitKicked => RoomEventActionView::ExitKicked,
            RoomEventAction::ExitDeleted => RoomEventActionView::ExitDeleted,
            RoomEventAction::ShowError { error_msg } => RoomEventActionView::ShowError {
                error_msg: error_msg@,
            },
            RoomEventAction::Ignore => RoomEventActionView::Ignore,
        }
    }
}

/// What a client in `current` room, logged in as `me`, does with one event.
/// Its own message echo is skipped — it was already printed locally — and
/// notices for other rooms are ignored.
pub open spec fn room_event_spec(
    current: Seq<char>,
    me: Seq<char>,
    msg: ServerMsgView,
) -> RoomEventActionView {
    match msg {
        ServerMsgView::MessageBroadcast(m) => {
            if m.user_id == "system"@ {
                RoomEventActionView::SystemNote { content: m.content }
            } else if m.user_id != me {
                RoomEventActionView::ShowMessage {
                    timestamp: m.timestamp,
                    user_id: m.user_id,
                    content: m.content,
                }
            } else {
                RoomEventActionView::Ignore
            }
        },
        ServerMsgView::RoomDeleted { room_id } => {
            if room_id == current {
                RoomEventActionView::ExitDeleted
            } else {
                RoomEventActionView::Ignore
            }
        },
        ServerMsgView::UserJoined { room_id, user_id } => {
            if room_id == current && user_id != me {
                RoomEventActionView::ShowJoined { user_id }
            } else {
                RoomEventActionView::Ignore
            }
        },
        ServerMsgView::UserLeft { room_id, user_id } => {
            if room_id == current && user_id != me {
                RoomEventActionView::ShowLeft { user_id }
            } else {
                RoomEventActionView::Ignore
            }
        },
        ServerMsgView::UserKicked { room_id, user_id } => {
            if room_id == current {
                if user_id == me {
                    RoomEventActionView::ExitKicked
                } else {
                    RoomEventActionView::ShowKicked { user_id }
                }
            } else {
                RoomEventActionView::Ignore
            }
        },
        ServerMsgView::Pong { .. } => RoomEventActionView::Ignore,
        ServerMsgView::Error { error_msg } => RoomEventActionView::ShowError { error_msg },
    }
}

/// Decides what to do with one received event.  See [`room_event_spec`].
pub fn room_event_action(current_room: &String, self_name: &String, msg: &ServerWsMessage) -> (a:
    RoomEventAction)
    ensures
        a@ == room_event_spec(current_room@, self_name@, msg@),
{
    match msg {
        ServerWsMessage::MessageBroadcast(m) => {
            if is_verb(&m.user_id, "system") {
                RoomEventAction::SystemNote { content: m.content.clone() }
            } else if !(m.user_id == *self_name) {
                RoomEventAction::ShowMessage {
                    timestamp: m.timestamp.clone(),
                    user_id: m.user_id.clone(),
                    content: m.content.clone(),
                }
            } else {
                RoomEventAction::Ignore
            }
        },
        ServerWsMessage::RoomDeleted { room_id } => {
            if *room_id == *current_room {
                RoomEventAction::ExitDeleted
            } else {
                RoomEventAction::Ignore
            }
        },
        ServerWsMessage::UserJoined { room_id, user_id } => {
            if *room_id == *current_room && !(*user_id == *self_name) {
                RoomEventAction::ShowJoined { user_id: user_id.clone() }
            } else {
                RoomEventAction::Ignore
            }
        },
        ServerWsMessage::UserLeft { room_id, user_id } => {
            if *room_id == *current_room && !(*user_id == *self_name) {
                RoomEventAction::ShowLeft { user_id: user_id.clone() }
            } else {
                RoomEventAction::Ignore
            }
        },
        ServerWsMessage::UserKicked { room_id, user_id } => {
            if *room_id == *current_room {
                if *user_id == *self_name {
                    RoomEventAction::ExitKicked
                } else {
                    RoomEventAction::ShowKicked { user_id: user_id.clone() }
                }
            } else {
                RoomEventAction::Ignore
            }
        },
        ServerWsMessage::Pong { .. } => RoomEventAction::Ignore,
        ServerWsMessage::Error { error_msg } => RoomEventAction::ShowError {
            error_msg: error_msg.clone(),
        },
    }
}

// ---------------------------------------------------------------------------
// Client session state
// ---------------------------------------------------------------------------

/// What a client remembers about itself: its credential token, who it is
/// logged in as, and which room it currently occupies.  An identity occupies
/// at most one room at a time.
pub struct ClientState {
    pub auth_token: Option<String>,
    pub username: Option<String>,
    pub current_room: Option<String>,
}

impl ClientState {
    /// A fresh client: not logged in, in no room.
    pub fn new() -> (c: ClientState)
        ensures
            c.auth_token is None,
            c.username is None,
            c.current_room is None,
    {
        ClientState { auth_token: None, username: None, current_room: None }
    }

    /// A successful login stores the token and the identity.
    pub fn on_login(&mut self, token: String, user: String)
        ensures
            final(self).auth_token == Some(token),
            final(self).username == Some(user),
            final(self).current_room == old(self).current_room,
    {
        self.auth_token = Some(token);
        self.username = Some(user);
    }

    /// Logging out forgets the identity and the room.
    pub fn on_logout(&mut self)
        ensures
            final(self).auth_token == old(self).auth_token,
            final(self).username is None,
            final(self).current_room is None,
    {
        self.username = None;
        self.current_room = None;
    }

    /// A successful join binds the client to its room.
    pub fn on_joined(&mut self, room_id: String)
        ensures
            final(self).auth_token == old(self).auth_token,
            final(self).username == old(self).username,
            final(self).current_room == Some(room_id),
    {
        self.current_room = Some(room_id);
    }

    /// Leaving — voluntarily, kicked, or because the room was deleted —
    /// returns the client to the lobby.
    pub fn on_left(&mut self)
        ensures
            final(self).auth_token == old(self).auth_token,
            final(self).username == old(self).username,
            final(self).current_room is None,
    {
        self.current_room = None;
    }
}

} // verus!
