use chat_core::actor::ActorState;
use chat_core::actor::finish_teardown;
use chat_core::actor::inbound_transition;
use chat_core::actor::outbound_transition;
use chat_core::actor::start_duties;
use chat_core::client::ClientState;
use chat_core::client::LobbyCommand;
use chat_core::client::RoomCommand;
use chat_core::client::RoomEventAction;
use chat_core::client::parse_lobby_command;
use chat_core::client::parse_room_command;
use chat_core::client::password_meets_policy;
use chat_core::client::room_event_action;
use chat_core::client::username_valid;
use chat_core::engine::CommandOutcome;
use chat_core::messages::ChatMessage;
use chat_core::messages::ServerWsMessage;

fn s(x: &str) -> String {
    x.to_string()
}

fn toks(words: &[&str]) -> Vec<String> {
    words.iter().map(|w| w.to_string()).collect()
}

#[test]
fn password_policy() {
    assert!(password_meets_policy("Passw0rd!"));
    assert!(password_meets_policy("PASSWORD!"));
    assert!(!password_meets_policy("password!"), "no uppercase letter");
    assert!(!password_meets_policy("Password1"), "no special character");
    assert!(!password_meets_policy("Pass!"), "shorter than eight");
    assert!(!password_meets_policy(""));
}

#[test]
fn username_rules() {
    assert!(username_valid("bob"));
    assert!(!username_valid(""));
    assert!(!username_valid("/bob"));
}

#[test]
fn lobby_parsing() {
    assert_eq!(
        parse_lobby_command(&toks(&["/join", "general", "pw1"])),
        LobbyCommand::Join { room_id: s("general"), password: s("pw1") }
    );
    assert_eq!(parse_lobby_command(&toks(&["/join", "general"])), LobbyCommand::Usage);
    assert_eq!(
        parse_lobby_command(&toks(&["/create", "r", "p"])),
        LobbyCommand::Create { room_id: s("r"), password: s("p") }
    );
    assert_eq!(parse_lobby_command(&toks(&["/create"])), LobbyCommand::Usage);
    assert_eq!(
        parse_lobby_command(&toks(&["/delete", "r"])),
        LobbyCommand::Delete { room_id: s("r") }
    );
    assert_eq!(parse_lobby_command(&toks(&["/delete"])), LobbyCommand::Usage);
    assert_eq!(parse_lobby_command(&toks(&["/all_rooms"])), LobbyCommand::AllRooms);
    assert_eq!(parse_lobby_command(&toks(&["/active_rooms"])), LobbyCommand::ActiveRooms);
    assert_eq!(parse_lobby_command(&toks(&["/logout"])), LobbyCommand::Logout);
    assert_eq!(parse_lobby_command(&toks(&["/quit"])), LobbyCommand::Quit);
    assert_eq!(parse_lobby_command(&toks(&["/help"])), LobbyCommand::Help);
    assert_eq!(parse_lobby_command(&toks(&["hello"])), LobbyCommand::Unknown);
    assert_eq!(parse_lobby_command(&toks(&[])), LobbyCommand::Unknown);
}

#[test]
fn room_parsing() {
    let line = s("hello there");
    assert_eq!(
        parse_room_command(&line, &toks(&["hello", "there"])),
        RoomCommand::Message { content: s("hello there") }
    );
    assert_eq!(parse_room_command(&s("/leave"), &toks(&["/leave"])), RoomCommand::Leave);
    assert_eq!(parse_room_command(&s("/help"), &toks(&["/help"])), RoomCommand::Help);
    assert_eq!(
        parse_room_command(&s("/active_users"), &toks(&["/active_users"])),
        RoomCommand::ActiveUsers
    );
    assert_eq!(
        parse_room_command(&s("/kick bob"), &toks(&["/kick", "bob"])),
        RoomCommand::Kick { user_id: s("bob") }
    );
    assert_eq!(parse_room_command(&s("/kick"), &toks(&["/kick"])), RoomCommand::KickUsage);
    assert_eq!(parse_room_command(&s("/quit"), &toks(&["/quit"])), RoomCommand::Quit);
}

#[test]
fn event_reactions() {
    let me = s("bob");
    let room = s("general");
    let broadcast = |user: &str, content: &str| {
        ServerWsMessage::MessageBroadcast(ChatMessage {
            room_id: s("general"),
            user_id: s(user),
            message_id: s("m"),
            content: s(content),
            timestamp: s("t"),
        })
    };

    assert_eq!(
        room_event_action(&room, &me, &broadcast("alice", "hi")),
        RoomEventAction::ShowMessage { timestamp: s("t"), user_id: s("alice"), content: s("hi") }
    );
    assert_eq!(room_event_action(&room, &me, &broadcast("bob", "hi")), RoomEventAction::Ignore);
    assert_eq!(
        room_event_action(&room, &me, &broadcast("system", "maintenance")),
        RoomEventAction::SystemNote { content: s("maintenance") }
    );
    assert_eq!(
        room_event_action(&room, &me, &ServerWsMessage::RoomDeleted { room_id: s("general") }),
        RoomEventAction::ExitDeleted
    );
    assert_eq!(
        room_event_action(&room, &me, &ServerWsMessage::RoomDeleted { room_id: s("other") }),
        RoomEventAction::Ignore
    );
    assert_eq!(
        room_event_action(
            &room,
            &me,
            &ServerWsMessage::UserJoined { room_id: s("general"), user_id: s("carol") },
        ),
        RoomEventAction::ShowJoined { user_id: s("carol") }
    );
    assert_eq!(
        room_event_action(
            &room,
            &me,
            &ServerWsMessage::UserLeft { room_id: s("general"), user_id: s("carol") },
        ),
        RoomEventAction::ShowLeft { user_id: s("carol") }
    );
    assert_eq!(
        room_event_action(
            &room,
            &me,
            &ServerWsMessage::UserKicked { room_id: s("general"), user_id: s("bob") },
        ),
        RoomEventAction::ExitKicked
    );
    assert_eq!(
        room_event_action(
            &room,
            &me,
            &ServerWsMessage::UserKicked { room_id: s("general"), user_id: s("carol") },
        ),
        RoomEventAction::ShowKicked { user_id: s("carol") }
    );
    assert_eq!(
        room_event_action(&room, &me, &ServerWsMessage::Pong { timestamp: s("1") }),
        RoomEventAction::Ignore
    );
    assert_eq!(
        room_event_action(&room, &me, &ServerWsMessage::Error { error_msg: s("oops") }),
        RoomEventAction::ShowError { error_msg: s("oops") }
    );
}

#[test]
fn actor_lifecycle() {
    let me = s("bob");
    let room = s("general");

    assert_eq!(start_duties(ActorState::Connecting), ActorState::Joined);
    assert_eq!(start_duties(ActorState::Closed), ActorState::Closed);

    let kicked_me = ServerWsMessage::UserKicked { room_id: s("general"), user_id: s("bob") };
    assert_eq!(
        outbound_transition(ActorState::Joined, &me, &room, &kicked_me),
        (ActorState::Kicked, true)
    );
    let kicked_other = ServerWsMessage::UserKicked { room_id: s("general"), user_id: s("carol") };
    assert_eq!(
        outbound_transition(ActorState::Joined, &me, &room, &kicked_other),
        (ActorState::Joined, true)
    );
    let deleted = ServerWsMessage::RoomDeleted { room_id: s("general") };
    assert_eq!(
        outbound_transition(ActorState::Joined, &me, &room, &deleted),
        (ActorState::RoomDeleted, true)
    );
    assert_eq!(
        outbound_transition(ActorState::Closed, &me, &room, &deleted),
        (ActorState::Closed, false)
    );

    assert_eq!(
        inbound_transition(ActorState::Joined, &CommandOutcome::LeftRoom),
        ActorState::Leaving
    );
    assert_eq!(
        inbound_transition(ActorState::Joined, &CommandOutcome::Accepted),
        ActorState::Joined
    );
    assert_eq!(finish_teardown(ActorState::Leaving), ActorState::Closed);
}

#[test]
fn client_state_transitions() {
    let mut st = ClientState::new();
    assert!(st.username.is_none() && st.current_room.is_none() && st.auth_token.is_none());
    st.on_login(s("tok"), s("bob"));
    assert_eq!(st.username, Some(s("bob")));
    assert_eq!(st.auth_token, Some(s("tok")));
    st.on_joined(s("general"));
    assert_eq!(st.current_room, Some(s("general")));
    st.on_left();
    assert!(st.current_room.is_none());
    st.on_joined(s("general"));
    st.on_logout();
    assert!(st.username.is_none() && st.current_room.is_none());
}
