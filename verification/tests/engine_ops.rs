use chat_core::engine::ChatCore;
use chat_core::engine::CommandOutcome;
use chat_core::messages::ClientWsMessage;
use chat_core::messages::ErrorResponse;
use chat_core::messages::ServerWsMessage;

fn s(x: &str) -> String {
    x.to_string()
}

#[test]
fn create_then_duplicate() {
    let mut core = ChatCore::new();
    let r = core.create_room(s("general"), s("pw1"), s("alice"), s("t0"));
    assert!(matches!(r, Ok(ref resp) if resp.room_id == "general" && resp.created_at == "t0"));
    let r2 = core.create_room(s("general"), s("pw2"), s("bob"), s("t1"));
    assert!(
        matches!(r2, Err(ErrorResponse::RoomAlreadyExists { ref room_id }) if room_id == "general")
    );
}

#[test]
fn join_errors() {
    let mut core = ChatCore::new();
    core.create_room(s("r1"), s("p"), s("owner"), s("t")).unwrap();
    let missing = core.join_room(s("nope"), s("p"), s("a"));
    assert!(matches!(missing, Err(ErrorResponse::RoomNotFound { ref room_id }) if room_id == "nope"));
    let wrong = core.join_room(s("r1"), s("bad"), s("a"));
    assert!(matches!(wrong, Err(ErrorResponse::InvalidPassword { .. })));
    core.join_room(s("r1"), s("p"), s("a")).unwrap();
    let again = core.join_room(s("r1"), s("p"), s("a"));
    assert!(matches!(again, Err(ErrorResponse::UserAlreadyExists { ref user_id }) if user_id == "a"));
    // an identity occupies at most one room at a time
    core.create_room(s("r2"), s("q"), s("owner"), s("t")).unwrap();
    let second = core.join_room(s("r2"), s("q"), s("a"));
    assert!(matches!(second, Err(ErrorResponse::UserAlreadyExists { .. })));
}

#[test]
fn join_snapshot_excludes_newcomer() {
    let mut core = ChatCore::new();
    core.create_room(s("r"), s("p"), s("owner"), s("t")).unwrap();
    let first = core.join_room(s("r"), s("p"), s("a")).unwrap();
    assert!(first.active_users.is_empty());
    assert!(first.chat_history.is_empty());
    let second = core.join_room(s("r"), s("p"), s("b")).unwrap();
    assert_eq!(second.active_users, vec![s("a")]);
}

#[test]
fn leave_is_idempotent_safe() {
    let mut core = ChatCore::new();
    core.create_room(s("r"), s("p"), s("owner"), s("t")).unwrap();
    core.join_room(s("r"), s("p"), s("a")).unwrap();
    assert!(core.leave_room(s("r"), &s("a")).is_ok());
    let twice = core.leave_room(s("r"), &s("a"));
    assert!(matches!(twice, Err(ErrorResponse::NotInRoom { ref room_id }) if room_id == "r"));
}

#[test]
fn leave_notifies_remaining_only() {
    let mut core = ChatCore::new();
    core.create_room(s("r"), s("p"), s("owner"), s("t")).unwrap();
    core.join_room(s("r"), s("p"), s("a")).unwrap();
    core.join_room(s("r"), s("p"), s("b")).unwrap();
    // a's queue so far: the joining notice for b
    let j = core.recv_event(&s("a")).unwrap();
    assert!(matches!(j, ServerWsMessage::UserJoined { ref user_id, .. } if user_id == "b"));
    core.leave_room(s("r"), &s("b")).unwrap();
    let l = core.recv_event(&s("a")).unwrap();
    assert!(matches!(l, ServerWsMessage::UserLeft { ref user_id, .. } if user_id == "b"));
    // b's entry is gone: nothing to drain
    assert!(core.recv_event(&s("b")).is_none());
}

#[test]
fn kick_requires_ownership() {
    let mut core = ChatCore::new();
    core.create_room(s("r"), s("p"), s("owner"), s("t")).unwrap();
    core.join_room(s("r"), s("p"), s("a")).unwrap();
    core.join_room(s("r"), s("p"), s("b")).unwrap();
    let by_member = core.kick_user(s("r"), &s("a"), &s("b"));
    assert!(matches!(by_member, Err(ErrorResponse::InvalidPermissions { .. })));
    let missing_room = core.kick_user(s("nope"), &s("owner"), &s("b"));
    assert!(matches!(missing_room, Err(ErrorResponse::RoomNotFound { .. })));
    let missing_target = core.kick_user(s("r"), &s("owner"), &s("nobody"));
    assert!(matches!(missing_target, Err(ErrorResponse::NotInRoom { .. })));
    assert!(core.kick_user(s("r"), &s("owner"), &s("b")).is_ok());
}

#[test]
fn delete_notifies_members_and_unregisters() {
    let mut core = ChatCore::new();
    core.create_room(s("r"), s("p"), s("owner"), s("t")).unwrap();
    core.join_room(s("r"), s("p"), s("a")).unwrap();
    core.join_room(s("r"), s("p"), s("b")).unwrap();
    core.join_room(s("r"), s("p"), s("c")).unwrap();
    let by_other = core.delete_room(s("r"), &s("a"));
    assert!(matches!(by_other, Err(ErrorResponse::InvalidPermissions { .. })));
    let ok = core.delete_room(s("r"), &s("owner")).unwrap();
    assert_eq!(ok.message, "room deleted");
    for u in ["a", "b", "c"] {
        let mut deleted_count = 0;
        while let Some(ev) = core.recv_event(&s(u)) {
            if matches!(ev, ServerWsMessage::RoomDeleted { ref room_id } if room_id == "r") {
                deleted_count += 1;
            }
        }
        assert_eq!(deleted_count, 1, "member {u} must see exactly one deletion notice");
        core.disconnect(&s(u));
    }
    let rejoin = core.join_room(s("r"), s("p"), s("a"));
    assert!(matches!(rejoin, Err(ErrorResponse::RoomNotFound { .. })));
    let deleted_again = core.delete_room(s("r"), &s("owner"));
    assert!(matches!(deleted_again, Err(ErrorResponse::RoomNotFound { .. })));
}

#[test]
fn scenario_general_room() {
    let mut core = ChatCore::new();
    core.create_room(s("general"), s("pw1"), s("alice"), s("t0")).unwrap();
    core.join_room(s("general"), s("pw1"), s("alice")).unwrap();
    let bob_join = core.join_room(s("general"), s("pw1"), s("bob")).unwrap();
    assert_eq!(bob_join.active_users, vec![s("alice")]);

    core.send_chat(&s("alice"), s("general"), s("hi"), s("m1"), s("t1")).unwrap();

    // bob's first event after joining is the message, before anything later
    let ev = core.recv_event(&s("bob")).unwrap();
    match ev {
        ServerWsMessage::MessageBroadcast(m) => {
            assert_eq!(m.room_id, "general");
            assert_eq!(m.user_id, "alice");
            assert_eq!(m.content, "hi");
        },
        other => panic!("expected the chat message first, got {other:?}"),
    }

    core.kick_user(s("general"), &s("alice"), &s("bob")).unwrap();

    // alice observes everything in publish order
    let e1 = core.recv_event(&s("alice")).unwrap();
    assert!(matches!(e1, ServerWsMessage::UserJoined { ref user_id, .. } if user_id == "bob"));
    let e2 = core.recv_event(&s("alice")).unwrap();
    assert!(matches!(e2, ServerWsMessage::MessageBroadcast(_)));
    let e3 = core.recv_event(&s("alice")).unwrap();
    assert!(
        matches!(e3, ServerWsMessage::UserKicked { ref room_id, ref user_id } if room_id == "general" && user_id == "bob")
    );

    // bob gets the kick notice too
    let ek = core.recv_event(&s("bob")).unwrap();
    assert!(matches!(ek, ServerWsMessage::UserKicked { ref user_id, .. } if user_id == "bob"));

    // bob's subsequent send is rejected: no longer in the room
    let rejected = core.send_chat(&s("bob"), s("general"), s("again"), s("m2"), s("t2"));
    assert!(matches!(rejected, Err(ErrorResponse::NotInRoom { ref room_id }) if room_id == "general"));
}

#[test]
fn sender_receives_own_copy_in_order() {
    let mut core = ChatCore::new();
    core.create_room(s("r"), s("p"), s("me"), s("t")).unwrap();
    core.join_room(s("r"), s("p"), s("me")).unwrap();
    core.send_chat(&s("me"), s("r"), s("one"), s("m1"), s("t1")).unwrap();
    core.send_chat(&s("me"), s("r"), s("two"), s("m2"), s("t2")).unwrap();
    let e1 = core.recv_event(&s("me")).unwrap();
    assert!(matches!(e1, ServerWsMessage::MessageBroadcast(ref m) if m.content == "one"));
    let e2 = core.recv_event(&s("me")).unwrap();
    assert!(matches!(e2, ServerWsMessage::MessageBroadcast(ref m) if m.content == "two"));
    assert!(core.recv_event(&s("me")).is_none());
}

#[test]
fn subscribers_observe_the_same_order() {
    let mut core = ChatCore::new();
    core.create_room(s("r"), s("p"), s("owner"), s("t")).unwrap();
    core.join_room(s("r"), s("p"), s("a")).unwrap();
    core.join_room(s("r"), s("p"), s("b")).unwrap();
    core.send_chat(&s("a"), s("r"), s("one"), s("m1"), s("t1")).unwrap();
    core.send_chat(&s("b"), s("r"), s("two"), s("m2"), s("t2")).unwrap();
    core.send_chat(&s("a"), s("r"), s("three"), s("m3"), s("t3")).unwrap();
    let drain = |core: &mut ChatCore, who: &str| {
        let mut contents = Vec::new();
        while let Some(ev) = core.recv_event(&s(who)) {
            if let ServerWsMessage::MessageBroadcast(m) = ev {
                contents.push(m.content);
            }
        }
        contents
    };
    let seen_a = drain(&mut core, "a");
    let seen_b = drain(&mut core, "b");
    assert_eq!(seen_a, vec![s("one"), s("two"), s("three")]);
    assert_eq!(seen_b, seen_a);
}

#[test]
fn recv_without_entry_is_none() {
    let mut core = ChatCore::new();
    assert!(core.recv_event(&s("ghostly")).is_none());
}

#[test]
fn disconnect_is_reentrant_safe() {
    let mut core = ChatCore::new();
    core.create_room(s("r"), s("p"), s("owner"), s("t")).unwrap();
    core.join_room(s("r"), s("p"), s("a")).unwrap();
    core.join_room(s("r"), s("p"), s("b")).unwrap();
    // b is kicked, then its actor tears down: no second leave notice for a
    core.kick_user(s("r"), &s("owner"), &s("b")).unwrap();
    core.disconnect(&s("b"));
    core.disconnect(&s("b"));
    let e1 = core.recv_event(&s("a")).unwrap();
    assert!(matches!(e1, ServerWsMessage::UserJoined { .. }));
    let e2 = core.recv_event(&s("a")).unwrap();
    assert!(matches!(e2, ServerWsMessage::UserKicked { .. }));
    assert!(core.recv_event(&s("a")).is_none(), "teardown after a kick must stay silent");
}

#[test]
fn listings() {
    let mut core = ChatCore::new();
    core.create_room(s("empty_one"), s("p"), s("o1"), s("t")).unwrap();
    core.create_room(s("busy"), s("p"), s("o2"), s("t")).unwrap();
    core.join_room(s("busy"), s("p"), s("a")).unwrap();
    core.join_room(s("busy"), s("p"), s("b")).unwrap();

    let all = core.list_rooms(false);
    assert_eq!(all.rooms.len(), 2);
    assert_eq!(all.rooms[0].room_id, "empty_one");
    assert_eq!(all.rooms[0].owner, "o1");
    assert_eq!(all.rooms[0].users_count, 0);
    assert_eq!(all.rooms[1].room_id, "busy");
    assert_eq!(all.rooms[1].users_count, 2);

    let active = core.list_rooms(true);
    assert_eq!(active.rooms.len(), 1);
    assert_eq!(active.rooms[0].room_id, "busy");

    let users = core.list_room_users(&s("busy")).unwrap();
    assert_eq!(users.active_users, vec![s("a"), s("b")]);
    let missing = core.list_room_users(&s("nope"));
    assert!(matches!(missing, Err(ErrorResponse::RoomNotFound { .. })));
}

#[test]
fn handle_command_dispatch() {
    let mut core = ChatCore::new();
    core.create_room(s("r"), s("p"), s("owner"), s("t")).unwrap();
    core.join_room(s("r"), s("p"), s("a")).unwrap();

    let pong = core
        .handle_command(
            &s("a"),
            ClientWsMessage::Ping { timestamp: s("123") },
            s("m"),
            s("t"),
        )
        .unwrap();
    assert!(matches!(pong, CommandOutcome::Pong(ref ts) if ts == "123"));

    let wrong_room = core.handle_command(
        &s("a"),
        ClientWsMessage::SendMessage { room_id: s("other"), content: s("x") },
        s("m"),
        s("t"),
    );
    assert!(matches!(wrong_room, Err(ErrorResponse::NotInRoom { ref room_id }) if room_id == "other"));

    let sent = core
        .handle_command(
            &s("a"),
            ClientWsMessage::SendMessage { room_id: s("r"), content: s("hello") },
            s("m"),
            s("t"),
        )
        .unwrap();
    assert!(matches!(sent, CommandOutcome::Accepted));

    let left = core
        .handle_command(&s("a"), ClientWsMessage::LeaveRoom { room_id: s("r") }, s("m"), s("t"))
        .unwrap();
    assert!(matches!(left, CommandOutcome::LeftRoom));
}

#[test]
fn stamped_message_carries_fresh_id() {
    let mut core = ChatCore::new();
    core.create_room(s("r"), s("p"), s("me"), s("t")).unwrap();
    core.join_room(s("r"), s("p"), s("me")).unwrap();
    let sent = core
        .handle_command_now(
            &s("me"),
            ClientWsMessage::SendMessage { room_id: s("r"), content: s("hi") },
        )
        .unwrap();
    assert!(matches!(sent, CommandOutcome::Accepted));
    let ev = core.recv_event(&s("me")).unwrap();
    match ev {
        ServerWsMessage::MessageBroadcast(m) => {
            assert_eq!(m.content, "hi");
            assert_eq!(m.user_id, "me");
            assert_eq!(m.message_id.chars().count(), 36);
        },
        other => panic!("expected the stamped message, got {other:?}"),
    }
}

#[test]
fn membership_is_the_fold_of_the_operations() {
    // After a sequence of joins, leaves and kicks, the members are exactly
    // the identities whose last successful join was not undone.
    let mut core = ChatCore::new();
    core.create_room(s("r"), s("p"), s("owner"), s("t")).unwrap();
    core.join_room(s("r"), s("p"), s("owner")).unwrap();
    core.join_room(s("r"), s("p"), s("a")).unwrap();
    core.join_room(s("r"), s("p"), s("b")).unwrap();
    core.leave_room(s("r"), &s("a")).unwrap();
    core.join_room(s("r"), s("p"), s("c")).unwrap();
    core.kick_user(s("r"), &s("owner"), &s("b")).unwrap();
    core.disconnect(&s("b"));
    core.join_room(s("r"), s("p"), s("a")).unwrap();
    let users = core.list_room_users(&s("r")).unwrap();
    assert_eq!(users.active_users, vec![s("owner"), s("c"), s("a")]);
}

#[test]
fn create_room_stamped_by_the_clock() {
    let mut core = ChatCore::new();
    let r = core.create_room_now(s("r"), s("p"), s("owner"));
    assert!(matches!(r, Ok(ref resp) if resp.room_id == "r"));
    assert!(core.join_room(s("r"), s("p"), s("a")).is_ok());
}

#[test]
fn fresh_ids_are_well_formed() {
    let a = chat_core::idgen::new_message_id();
    let b = chat_core::idgen::new_message_id();
    assert_eq!(a.chars().count(), 36);
    assert_eq!(b.chars().count(), 36);
}
