//! The composed core: room registry plus session table, with the atomic
//! operations of the service.  Every operation is one call under an exclusive
//! borrow, so operations on the same state serialize; the contracts say
//! exactly what each atomic step does, which makes any interleaving of
//! concurrent requests a sequence of these steps.
use vstd::prelude::*;

use crate::messages::ChatMessage;
use crate::messages::CreateRoomResponse;
use crate::messages::ErrorResponse;
use crate::messages::ChatMessageView;
use crate::messages::ClientWsMessage;
use crate::messages::JoinRoomResponse;
use crate::messages::ListRoomUsersResponse;
use crate::messages::ListRoomsResponse;
use crate::messages::RoomInfo;
use crate::messages::RoomInfoView;
use crate::messages::SuccessResponse;
use crate::messages::ServerMsgView;
use crate::messages::ServerWsMessage;
use crate::registry::Room;
use crate::registry::RoomRegistry;
use crate::registry::lemma_name_set_contains;
use crate::registry::lemma_name_set_push;
use crate::registry::lemma_name_set_remove;
use crate::registry::name_set;
use crate::hub::broadcast_post;
use crate::hub::lemma_queue_views_push;
use crate::sessions::Session;
use crate::sessions::SessionTable;
use crate::sessions::queue_views;
use crate::sessions::teardown_step;

verus! {

/// Abstract state of one room.
pub struct RoomView {
    pub password: Seq<char>,
    pub owner: Seq<char>,
    pub members: Set<Seq<char>>,
    /// Everything published to the room's fanout, in publish order.
    pub log: Seq<ServerMsgView>,
}

/// Abstract state of one session entry.
pub struct SessionView {
    pub room: Seq<char>,
    /// Events delivered and not yet drained, oldest first.
    pub queue: Seq<ServerMsgView>,
    pub open: bool,
    /// Length of the room's log at subscription time.
    pub start: nat,
    /// Events already drained, in drain order.
    pub observed: Seq<ServerMsgView>,
}

/// Authoritative in-memory state of the chat service.
pub struct ChatCore {
    pub registry: RoomRegistry,
    pub sessions: SessionTable,
}

impl ChatCore {
    // -----------------------------------------------------------------------
    // Abstract accessors
    // -----------------------------------------------------------------------
    pub open spec fn has_room(self, rid: Seq<char>) -> bool {
        self.registry.has_room(rid)
    }

    pub open spec fn room_view(self, rid: Seq<char>) -> RoomView {
        let r = self.registry.room_of(rid);
        RoomView {
            password: r.room_password@,
            owner: r.owner@,
            members: r.member_set(),
            log: r.log@,
        }
    }

    pub open spec fn is_member(self, rid: Seq<char>, id: Seq<char>) -> bool {
        self.registry.is_member(rid, id)
    }

    /// Some entry — active or in teardown — exists for `id`.
    pub open spec fn has_entry(self, id: Seq<char>) -> bool {
        self.sessions.has_entry(id)
    }

    pub open spec fn session_view(self, id: Seq<char>) -> SessionView {
        let s = self.sessions.entry_of(id);
        SessionView {
            room: s.room_id@,
            queue: queue_views(s.queue@),
            open: s.open,
            start: s.start@,
            observed: s.observed@,
        }
    }

    /// The identity has an active session.
    pub open spec fn in_session(self, id: Seq<char>) -> bool {
        self.sessions.in_session(id)
    }

    // -----------------------------------------------------------------------
    // Well-formedness
    // -----------------------------------------------------------------------
    /// Every active session is bound to a live room that lists its identity
    /// as a member: nobody stays registered to a room that no longer exists.
    pub open spec fn open_sessions_are_members(self) -> bool {
        forall|m: Seq<char>|
            #[trigger] self.sessions.in_session(m) ==> self.registry.is_member(
                self.sessions.entry_of(m).room_id@,
                m,
            )
    }

    /// Every member of every room has an active session bound to that room.
    pub open spec fn members_have_sessions(self) -> bool {
        forall|rid: Seq<char>, m: Seq<char>|
            #[trigger] self.registry.is_member(rid, m) ==> self.sessions.in_session(m)
                && self.sessions.entry_of(m).room_id@ == rid
    }

    /// An active session's observation history and pending queue are exactly
    /// the room's publish log from the session's subscription point on.
    pub open spec fn session_synced(self, m: Seq<char>) -> bool {
        let s = self.sessions.entry_of(m);
        let log = self.registry.log_of(s.room_id@);
        &&& self.registry.has_room(s.room_id@)
        &&& s.start@ <= log.len()
        &&& s.observed@ + queue_views(s.queue@) == log.subrange(s.start@ as int, log.len() as int)
    }

    pub open spec fn queues_match_logs(self) -> bool {
        forall|m: Seq<char>| #[trigger] self.sessions.in_session(m) ==> self.session_synced(m)
    }

    pub open spec fn wf(self) -> bool {
        &&& self.registry.wf()
        &&& self.sessions.unique_ids()
        &&& self.open_sessions_are_members()
        &&& self.members_have_sessions()
        &&& self.queues_match_logs()
    }

    /// A fresh core: no rooms, no sessions.
    pub fn new() -> (c: ChatCore)
        ensures
            c.wf(),
            c.registry.rooms@.len() == 0,
            c.sessions.sessions@.len() == 0,
            forall|rid: Seq<char>| !(#[trigger] c.has_room(rid)),
            forall|id: Seq<char>| !(#[trigger] c.has_entry(id)),
    {
        ChatCore {
            registry: RoomRegistry { rooms: Vec::new() },
            sessions: SessionTable { sessions: Vec::new() },
        }
    }
}

// ---------------------------------------------------------------------------
// Room creation and event draining
// ---------------------------------------------------------------------------

/// Copies a member list, element for element.
fn clone_names(v: &Vec<String>) -> (r: Vec<String>)
    ensures
        r@ == v@,
{
    let mut r: Vec<String> = Vec::new();
    let n = v.len();
    let mut k: usize = 0;
    while k < n
        invariant
            n == v@.len(),
            k <= n,
            r@ == v@.take(k as int),
        decreases n - k,
    {
        r.push(v[k].clone());
        proof {
            assert(r@ =~= v@.take(k as int + 1));
        }
        k = k + 1;
    }
    proof {
        assert(v@.take(n as int) =~= v@);
    }
    r
}

/// What a successful room creation does: a fresh room with the given
/// credential and owner, no members, an empty log; nothing else changes.
pub open spec fn create_post(
    pre: ChatCore,
    post: ChatCore,
    rid: Seq<char>,
    pw: Seq<char>,
    owner: Seq<char>,
) -> bool {
    &&& post.has_room(rid)
    &&& post.room_view(rid) == (RoomView {
        password: pw,
        owner: owner,
        members: Set::<Seq<char>>::empty(),
        log: Seq::<ServerMsgView>::empty(),
    })
    &&& forall|r2: Seq<char>| r2 != rid ==> #[trigger] post.has_room(r2) == pre.has_room(r2)
    &&& forall|r2: Seq<char>|
        r2 != rid && pre.has_room(r2) ==> #[trigger] post.room_view(r2) == pre.room_view(r2)
    &&& post.sessions == pre.sessions
}

impl ChatCore {
    /// Creates a room: fails if the id is already taken, otherwise atomically
    /// inserts a room with empty membership and allocates its fanout channel.
    pub fn create_room(
        &mut self,
        room_id: String,
        room_password: String,
        owner: String,
        created_at: String,
    ) -> (r: Result<CreateRoomResponse, ErrorResponse>)
        requires
            old(self).wf(),
        ensures
            final(self).wf(),
            old(self).has_room(room_id@) ==> (r matches Err(ErrorResponse::RoomAlreadyExists {
                room_id: e,
            }) && e@ == room_id@) && *final(self) == *old(self),
            !old(self).has_room(room_id@) ==> (r matches Ok(resp) && resp.room_id@ == room_id@
                && resp.created_at@ == created_at@) && create_post(
                *old(self),
                *final(self),
                room_id@,
                room_password@,
                owner@,
            ),
    {
        let ghost pre = *self;
        match self.registry.find_room(&room_id) {
            Some(_) => Err(ErrorResponse::RoomAlreadyExists { room_id }),
            None => {
                let room = Room {
                    room_id: room_id.clone(),
                    room_password,
                    owner,
                    members: Vec::new(),
                    log: Ghost(Seq::empty()),
                };
                let ghost room_g = room;
                self.registry.rooms.push(room);
                proof {
                    pre.registry.lemma_push_room(self.registry, room_g);
                    let rid = room_id@;
                    assert(self.room_view(rid).members =~= Set::<Seq<char>>::empty());
                    let n = pre.registry.rooms@.len() as int;
                    assert forall|t: int| 0 <= t < self.registry.rooms@.len() implies (
                    #[trigger] self.registry.rooms@[t]).wf() by {
                        if t < n {
                            assert(self.registry.rooms@[t] == pre.registry.rooms@[t]);
                        } else {
                            assert(self.registry.rooms@[t] == room_g);
                        }
                    }
                    assert forall|m: Seq<char>| #[trigger] self.sessions.in_session(
                        m,
                    ) implies self.registry.is_member(self.sessions.entry_of(m).room_id@, m) by {
                        let r2 = pre.sessions.entry_of(m).room_id@;
                        assert(pre.registry.is_member(r2, m));
                        assert(r2 != rid);
                        assert(self.registry.room_of(r2) == pre.registry.room_of(r2));
                    }
                    assert forall|r2: Seq<char>, m: Seq<char>| #[trigger] self.registry.is_member(
                        r2,
                        m,
                    ) implies self.sessions.in_session(m) && self.sessions.entry_of(m).room_id@
                        == r2 by {
                        if r2 == rid {
                            assert(self.registry.room_of(rid) == room_g);
                            assert(room_g.members@.len() == 0);
                            assert(false);
                        } else {
                            assert(self.registry.has_room(r2) == pre.registry.has_room(r2));
                            assert(self.registry.room_of(r2) == pre.registry.room_of(r2));
                            assert(pre.registry.is_member(r2, m));
                        }
                    }
                    assert forall|m: Seq<char>| #[trigger] self.sessions.in_session(
                        m,
                    ) implies self.session_synced(m) by {
                        let r2 = pre.sessions.entry_of(m).room_id@;
                        assert(pre.session_synced(m));
                        assert(r2 != rid);
                        assert(self.registry.room_of(r2) == pre.registry.room_of(r2));
                    }
                }
                Ok(CreateRoomResponse { room_id, created_at })
            },
        }
    }


}

// ---------------------------------------------------------------------------
// Join and leave
// ---------------------------------------------------------------------------

/// Makes an owned copy of a string slice.
fn owned_text(s: &str) -> (r: String)
    ensures
        r@ == s@,
{
    let r = s.to_string();
    proof {
        vstd::string::to_string_from_display_ensures_for_str(s, r);
    }
    r
}

/// What a successful join does: the joining notice goes to every current
/// member, the identity enters the member set, and a fresh active session —
/// subscribed from this point of the log on, with an empty queue — is bound
/// to the room.  Nothing else changes.
pub open spec fn join_post(pre: ChatCore, post: ChatCore, rid: Seq<char>, x: Seq<char>) -> bool {
    let ev = ServerMsgView::UserJoined { room_id: rid, user_id: x };
    &&& forall|r2: Seq<char>| #[trigger] post.has_room(r2) == pre.has_room(r2)
    &&& forall|r2: Seq<char>|
        pre.has_room(r2) && r2 != rid ==> #[trigger] post.room_view(r2) == pre.room_view(r2)
    &&& post.room_view(rid).password == pre.room_view(rid).password
    &&& post.room_view(rid).owner == pre.room_view(rid).owner
    &&& post.room_view(rid).members == pre.room_view(rid).members.insert(x)
    &&& post.room_view(rid).log == pre.room_view(rid).log.push(ev)
    &&& forall|m: Seq<char>| m != x ==> #[trigger] post.has_entry(m) == pre.has_entry(m)
    &&& post.in_session(x)
    &&& post.session_view(x) == (SessionView {
        room: rid,
        queue: Seq::<ServerMsgView>::empty(),
        open: true,
        start: post.room_view(rid).log.len(),
        observed: Seq::<ServerMsgView>::empty(),
    })
    &&& forall|m: Seq<char>|
        m != x && pre.has_entry(m) && !(pre.in_session(m) && pre.session_view(m).room == rid)
            ==> #[trigger] post.session_view(m) == pre.session_view(m)
    &&& forall|m: Seq<char>|
        pre.in_session(m) && (#[trigger] pre.session_view(m)).room == rid ==> post.session_view(m)
            == (SessionView { queue: pre.session_view(m).queue.push(ev), ..pre.session_view(m) })
}

/// What a successful leave does: the identity's session entry disappears, the
/// identity leaves the member set, and the leaving notice goes to every
/// remaining member.  Nothing else changes.
pub open spec fn leave_post(pre: ChatCore, post: ChatCore, rid: Seq<char>, x: Seq<char>) -> bool {
    let ev = ServerMsgView::UserLeft { room_id: rid, user_id: x };
    &&& forall|r2: Seq<char>| #[trigger] post.has_room(r2) == pre.has_room(r2)
    &&& forall|r2: Seq<char>|
        pre.has_room(r2) && r2 != rid ==> #[trigger] post.room_view(r2) == pre.room_view(r2)
    &&& post.room_view(rid).password == pre.room_view(rid).password
    &&& post.room_view(rid).owner == pre.room_view(rid).owner
    &&& post.room_view(rid).members == pre.room_view(rid).members.remove(x)
    &&& post.room_view(rid).log == pre.room_view(rid).log.push(ev)
    &&& !post.has_entry(x)
    &&& forall|m: Seq<char>| m != x ==> #[trigger] post.has_entry(m) == pre.has_entry(m)
    &&& forall|m: Seq<char>|
        m != x && pre.has_entry(m) && !(pre.in_session(m) && pre.session_view(m).room == rid)
            ==> #[trigger] post.session_view(m) == pre.session_view(m)
    &&& forall|m: Seq<char>|
        m != x && pre.in_session(m) && (#[trigger] pre.session_view(m)).room == rid
            ==> post.session_view(m) == (SessionView {
            queue: pre.session_view(m).queue.push(ev),
            ..pre.session_view(m)
        })
}

impl ChatCore {
    /// Admits `identity` to a room: checks the credential, notifies the
    /// current members, adds the identity to the membership and opens its
    /// session, atomically — there is no gap between the checks and the
    /// mutation they guard.  Returns a snapshot of the other current members.
    pub fn join_room(&mut self, room_id: String, room_password: String, identity: String) -> (r:
        Result<JoinRoomResponse, ErrorResponse>)
        requires
            old(self).wf(),
        ensures
            final(self).wf(),
            !old(self).has_room(room_id@) ==> (r matches Err(ErrorResponse::RoomNotFound {
                room_id: e,
            }) && e@ == room_id@) && *final(self) == *old(self),
            old(self).has_room(room_id@) && old(self).room_view(room_id@).password
                != room_password@ ==> (r matches Err(ErrorResponse::InvalidPassword { message: m })
                && m@ == "incorrect room password"@) && *final(self) == *old(self),
            old(self).has_room(room_id@) && old(self).room_view(room_id@).password
                == room_password@ && old(self).has_entry(identity@) ==> (r matches Err(
                ErrorResponse::UserAlreadyExists { user_id: u },
            ) && u@ == identity@) && *final(self) == *old(self),
            old(self).has_room(room_id@) && old(self).room_view(room_id@).password
                == room_password@ && !old(self).has_entry(identity@) ==> (r matches Ok(resp)
                && resp.room_id@ == room_id@ && resp.chat_history@.len() == 0
                && resp.active_users@ == old(self).registry.room_of(room_id@).members@ && name_set(
                resp.active_users@,
            ) == old(self).room_view(room_id@).members) && join_post(
                *old(self),
                *final(self),
                room_id@,
                identity@,
            ),
    {
        let ghost pre = *self;
        let ghost rid = room_id@;
        let ghost x = identity@;
        let i = match self.registry.find_room(&room_id) {
            None => {
                return Err(ErrorResponse::RoomNotFound { room_id });
            },
            Some(i) => i,
        };
        if !(self.registry.rooms[i].room_password == room_password) {
            return Err(
                ErrorResponse::InvalidPassword { message: owned_text("incorrect room password") },
            );
        }
        if self.sessions.find_entry(&identity).is_some() {
            return Err(ErrorResponse::UserAlreadyExists { user_id: identity });
        }

        // Snapshot of the members the newcomer is joining.
        let snapshot = clone_names(&self.registry.rooms[i].members);

        // Tell the room, then add the newcomer: the notice goes to the rest.
        let ev = ServerWsMessage::UserJoined {
            room_id: room_id.clone(),
            user_id: identity.clone(),
        };
        self.broadcast(i, &ev);
        let ghost mid = *self;

        let room = &mut self.registry.rooms[i];
        room.members.push(identity.clone());
        let ghost mid2 = *self;

        proof {
            mid.registry.lemma_update_room(mid2.registry, i as int);
            // The newcomer was in nobody's member list.
            assert(!pre.has_entry(x));
            if pre.registry.room_of(rid).spec_has_member(x) {
                assert(pre.registry.is_member(rid, x));
            }
            lemma_name_set_push(mid.registry.room_of(rid).members@, identity);
            assert(mid.registry.room_of(rid).members@ == pre.registry.room_of(rid).members@);
        }

        let ghost start_len = self.registry.rooms@[i as int].log@.len();
        self.sessions.register(
            Session {
                identity,
                room_id: room_id.clone(),
                queue: Vec::new(),
                open: true,
                start: Ghost(start_len),
                observed: Ghost(Seq::empty()),
            },
        );

        proof {
            let evv = ServerMsgView::UserJoined { room_id: rid, user_id: x };
            // Abstract effect on the room.
            assert(mid2.room_view(rid).members == pre.room_view(rid).members.insert(x));
            assert(mid2.room_view(rid).log == pre.room_view(rid).log.push(evv));
            assert(self.registry == mid2.registry);
            assert(self.session_view(x).queue =~= Seq::<ServerMsgView>::empty());
            assert(self.room_view(rid).password == pre.room_view(rid).password);
            assert(self.room_view(rid).owner == pre.room_view(rid).owner);

            // Frames across the three steps.
            assert forall|r2: Seq<char>| #[trigger] self.has_room(r2) == pre.has_room(r2) by {
                assert(mid.has_room(r2) == pre.has_room(r2));
                assert(mid2.registry.has_room(r2) == mid.registry.has_room(r2));
            }
            assert forall|r2: Seq<char>| pre.has_room(r2) && r2 != rid implies #[trigger] self.room_view(
                r2,
            ) == pre.room_view(r2) by {
                assert(mid.room_view(r2) == pre.room_view(r2));
                assert(mid.has_room(r2));
                assert(mid.registry.rooms@[i as int].room_id@ == rid);
                assert(mid2.registry.room_of(r2) == mid.registry.room_of(r2));
            }
            assert forall|m: Seq<char>| m != x implies #[trigger] self.has_entry(m)
                == pre.has_entry(m) by {
                assert(mid.has_entry(m) == pre.has_entry(m));
                assert(self.sessions.has_entry(m) == mid2.sessions.has_entry(m));
            }

            // Well-formedness of the registry after the member push.
            assert forall|t: int| 0 <= t < self.registry.rooms@.len() implies (
            #[trigger] self.registry.rooms@[t]).wf() by {
                if t != i as int {
                    assert(self.registry.rooms@[t] == mid.registry.rooms@[t]);
                } else {
                    let ro = mid.registry.rooms@[t];
                    let rn = self.registry.rooms@[t];
                    assert(ro.wf());
                    assert(rn.members@ == ro.members@.push(identity));
                    assert forall|a: int, b: int|
                        0 <= a < b < rn.members@.len() implies rn.members@[a]@
                        != rn.members@[b]@ by {
                        if b < ro.members@.len() {
                        } else {
                            if ro.members@[a]@ == x {
                                assert(ro.spec_has_member(x));
                                assert(mid.registry.is_member(rid, x));
                                assert(mid.has_entry(x));
                            }
                        }
                    }
                }
            }

            // The three cross invariants.
            assert forall|m: Seq<char>| #[trigger] self.sessions.in_session(
                m,
            ) implies self.registry.is_member(self.sessions.entry_of(m).room_id@, m)
                && self.session_synced(m) by {
                if m == x {
                    assert(self.sessions.entry_of(x).room_id@ == rid);
                    assert(self.registry.room_of(rid).members@[self.registry.room_of(
                        rid,
                    ).members@.len() - 1]@ == x);
                    assert(self.registry.is_member(rid, x));
                    let log = self.registry.log_of(rid);
                    assert(self.sessions.entry_of(x).observed@ + queue_views(
                        self.sessions.entry_of(x).queue@,
                    ) =~= log.subrange(start_len as int, log.len() as int));
                } else {
                    assert(self.sessions.entry_of(m) == mid.sessions.entry_of(m));
                    assert(mid.sessions.in_session(m));
                    assert(mid.registry.is_member(mid.sessions.entry_of(m).room_id@, m));
                    assert(mid.session_synced(m));
                    let r2 = mid.sessions.entry_of(m).room_id@;
                    if r2 == rid {
                        assert(self.registry.room_of(rid).members@ == mid.registry.room_of(
                            rid,
                        ).members@.push(identity));
                        let k = choose|k: int|
                            0 <= k < mid.registry.room_of(rid).members@.len()
                                && mid.registry.room_of(rid).members@[k]@ == m;
                        assert(self.registry.room_of(rid).members@[k]@ == m);
                        assert(self.registry.log_of(rid) == mid.registry.log_of(rid));
                    } else {
                        assert(self.registry.room_of(r2) == mid.registry.room_of(r2));
                    }
                }
            }
            assert forall|r2: Seq<char>, m: Seq<char>| #[trigger] self.registry.is_member(
                r2,
                m,
            ) implies self.sessions.in_session(m) && self.sessions.entry_of(m).room_id@ == r2 by {
                if r2 == rid {
                    let ms = self.registry.room_of(rid).members@;
                    let k = choose|k: int| 0 <= k < ms.len() && ms[k]@ == m;
                    if k < ms.len() - 1 {
                        assert(mid.registry.room_of(rid).members@[k]@ == m);
                        assert(mid.registry.is_member(rid, m));
                        assert(m != x);
                    } else {
                        assert(m == x);
                    }
                } else {
                    assert(self.registry.room_of(r2) == mid.registry.room_of(r2));
                    assert(mid.registry.is_member(r2, m));
                    assert(m != x);
                }
            }

            // The abstract join effect.
            assert(self.session_view(x) == (SessionView {
                room: rid,
                queue: Seq::<ServerMsgView>::empty(),
                open: true,
                start: self.room_view(rid).log.len(),
                observed: Seq::<ServerMsgView>::empty(),
            }));
            assert forall|m: Seq<char>|
                m != x && pre.has_entry(m) && !(pre.in_session(m) && pre.session_view(m).room
                    == rid) implies #[trigger] self.session_view(m) == pre.session_view(m) by {
                assert(mid.has_entry(m) == pre.has_entry(m));
                assert(mid.session_view(m) == pre.session_view(m));
                assert(self.sessions.entry_of(m) == mid.sessions.entry_of(m));
            }
            assert forall|m: Seq<char>|
                pre.in_session(m) && (#[trigger] pre.session_view(m)).room
                    == rid implies self.session_view(m) == (SessionView {
                queue: pre.session_view(m).queue.push(evv),
                ..pre.session_view(m)
            }) by {
                assert(m != x);
                assert(mid.has_entry(m) == pre.has_entry(m));
                assert(mid.session_view(m) == (SessionView {
                    queue: pre.session_view(m).queue.push(evv),
                    ..pre.session_view(m)
                }));
                assert(self.sessions.entry_of(m) == mid.sessions.entry_of(m));
            }
            assert(snapshot@ == pre.registry.room_of(rid).members@);
        }
        Ok(JoinRoomResponse { room_id, chat_history: Vec::new(), active_users: snapshot })
    }

    /// Takes `identity` out of a room: the identity's session entry is
    /// dropped, the identity leaves the member set, and the remaining members
    /// are told — the leaver itself gets no notice.  Leaving a room one is
    /// not in reports `NotInRoom` and changes nothing, so racing teardown
    /// paths are safe: whichever runs second is a no-op.
    pub fn leave_room(&mut self, room_id: String, identity: &String) -> (r: Result<
        (),
        ErrorResponse,
    >)
        requires
            old(self).wf(),
        ensures
            final(self).wf(),
            !old(self).is_member(room_id@, identity@) ==> (r matches Err(ErrorResponse::NotInRoom {
                room_id: e,
            }) && e@ == room_id@) && *final(self) == *old(self),
            old(self).is_member(room_id@, identity@) ==> r is Ok && leave_post(
                *old(self),
                *final(self),
                room_id@,
                identity@,
            ),
    {
        let ghost pre = *self;
        let ghost rid = room_id@;
        let ghost x = identity@;
        let i = match self.registry.find_room(&room_id) {
            None => {
                return Err(ErrorResponse::NotInRoom { room_id });
            },
            Some(i) => i,
        };
        let k = match self.registry.rooms[i].member_index(identity) {
            None => {
                return Err(ErrorResponse::NotInRoom { room_id });
            },
            Some(k) => k,
        };
        proof {
            assert(pre.registry.is_member(rid, x));
            assert(pre.sessions.in_session(x) && pre.sessions.entry_of(x).room_id@ == rid);
        }
        let j = match self.sessions.find_entry(identity) {
            Some(j) => j,
            None => {
                proof {
                    assert(false);
                }
                vstd::pervasive::unreached()
            },
        };

        // Unregister the session, then the membership, then tell the rest.
        self.sessions.sessions.remove(j);
        let ghost mid1 = *self;
        let room = &mut self.registry.rooms[i];
        room.members.remove(k);
        let ghost mid2 = *self;

        proof {
            pre.sessions.lemma_remove_entry(mid1.sessions, j as int);
            mid1.registry.lemma_update_room(mid2.registry, i as int);
            let mo = pre.registry.room_of(rid).members@;
            assert(pre.registry.idx_of(rid) == i);
            assert(mo[k as int]@ == x);
            lemma_name_set_remove(mo, k as int);
            assert(mid2.registry.room_of(rid).members@ == mo.remove(k as int));

            // Membership of the room, after the removal.
            let mn = mo.remove(k as int);
            assert forall|a: int, b: int| 0 <= a < b < mn.len() implies mn[a]@ != mn[b]@ by {
                let oa = if a < k as int { a } else { a + 1 };
                let ob = if b < k as int { b } else { b + 1 };
                assert(mn[a] == mo[oa] && mn[b] == mo[ob]);
            }
            assert forall|t: int| 0 <= t < mid2.registry.rooms@.len() implies (
            #[trigger] mid2.registry.rooms@[t]).wf() by {
                if t != i as int {
                    assert(mid2.registry.rooms@[t] == pre.registry.rooms@[t]);
                }
            }

            // Cross invariants for the intermediate state.
            assert forall|m: Seq<char>| #[trigger] mid2.sessions.in_session(
                m,
            ) implies mid2.registry.is_member(mid2.sessions.entry_of(m).room_id@, m)
                && mid2.session_synced(m) by {
                assert(m != x);
                assert(mid2.sessions.entry_of(m) == pre.sessions.entry_of(m));
                assert(pre.sessions.in_session(m));
                let r2 = pre.sessions.entry_of(m).room_id@;
                assert(pre.registry.is_member(r2, m));
                assert(pre.session_synced(m));
                if r2 == rid {
                    lemma_name_set_contains(mo, m);
                    lemma_name_set_contains(mn, m);
                    assert(name_set(mn) == name_set(mo).remove(x));
                    assert(mid2.registry.room_of(rid).log@ == pre.registry.room_of(rid).log@);
                } else {
                    assert(mid2.registry.room_of(r2) == pre.registry.room_of(r2));
                }
            }
            assert forall|r2: Seq<char>, m: Seq<char>| #[trigger] mid2.registry.is_member(
                r2,
                m,
            ) implies mid2.sessions.in_session(m) && mid2.sessions.entry_of(m).room_id@ == r2 by {
                if r2 == rid {
                    lemma_name_set_contains(mn, m);
                    lemma_name_set_contains(mo, m);
                    assert(name_set(mn) == name_set(mo).remove(x));
                    assert(m != x);
                    assert(pre.registry.is_member(rid, m));
                } else {
                    assert(mid2.registry.room_of(r2) == pre.registry.room_of(r2));
                    assert(pre.registry.is_member(r2, m));
                    if m == x {
                        assert(pre.sessions.entry_of(x).room_id@ == r2);
                        assert(false);
                    }
                }
                assert(mid2.sessions.entry_of(m) == pre.sessions.entry_of(m));
            }
        }

        let ev = ServerWsMessage::UserLeft { room_id, user_id: identity.clone() };
        self.broadcast(i, &ev);

        proof {
            let evv = ServerMsgView::UserLeft { room_id: rid, user_id: x };
            assert(broadcast_post(mid2, *self, rid, evv));

            assert forall|r2: Seq<char>| #[trigger] self.has_room(r2) == pre.has_room(r2) by {
                assert(self.has_room(r2) == mid2.has_room(r2));
                assert(mid2.registry.has_room(r2) == mid1.registry.has_room(r2));
            }
            assert forall|r2: Seq<char>| pre.has_room(r2) && r2 != rid implies #[trigger] self.room_view(
                r2,
            ) == pre.room_view(r2) by {
                assert(mid2.registry.room_of(r2) == mid1.registry.room_of(r2));
                assert(mid2.has_room(r2));
                assert(self.room_view(r2) == mid2.room_view(r2));
            }
            assert(self.room_view(rid).members == pre.room_view(rid).members.remove(x));
            assert(self.room_view(rid).log == pre.room_view(rid).log.push(evv));
            assert forall|m: Seq<char>| m != x implies #[trigger] self.has_entry(m)
                == pre.has_entry(m) by {
                assert(self.has_entry(m) == mid2.has_entry(m));
                assert(mid1.sessions.has_entry(m) == pre.sessions.has_entry(m));
            }
            assert(!self.has_entry(x)) by {
                assert(self.has_entry(x) == mid2.has_entry(x));
            }
            assert forall|m: Seq<char>|
                m != x && pre.has_entry(m) && !(pre.in_session(m) && pre.session_view(m).room
                    == rid) implies #[trigger] self.session_view(m) == pre.session_view(m) by {
                assert(mid2.sessions.entry_of(m) == pre.sessions.entry_of(m));
                assert(mid2.has_entry(m) == pre.has_entry(m));
                assert(mid2.session_view(m) == pre.session_view(m));
                assert(self.session_view(m) == mid2.session_view(m));
            }
            assert forall|m: Seq<char>|
                m != x && pre.in_session(m) && (#[trigger] pre.session_view(m)).room
                    == rid implies self.session_view(m) == (SessionView {
                queue: pre.session_view(m).queue.push(evv),
                ..pre.session_view(m)
            }) by {
                assert(mid2.sessions.entry_of(m) == pre.sessions.entry_of(m));
                assert(mid2.has_entry(m) == pre.has_entry(m));
                assert(mid2.session_view(m) == pre.session_view(m));
                assert(mid2.in_session(m));
                assert(self.session_view(m) == (SessionView {
                    queue: mid2.session_view(m).queue.push(evv),
                    ..mid2.session_view(m)
                }));
            }
        }
        Ok(())
    }
}

// ---------------------------------------------------------------------------
// Kick and delete
// ---------------------------------------------------------------------------

/// What a successful owner-initiated kick does: the kick notice goes to every
/// current member — the target included, so its connection can terminate —
/// the target leaves the member set, and the target's session is force-closed:
/// it receives no further fanout, keeping only what was already delivered.
pub open spec fn kick_post(pre: ChatCore, post: ChatCore, rid: Seq<char>, target: Seq<char>) -> bool {
    let ev = ServerMsgView::UserKicked { room_id: rid, user_id: target };
    &&& forall|r2: Seq<char>| #[trigger] post.has_room(r2) == pre.has_room(r2)
    &&& forall|r2: Seq<char>|
        pre.has_room(r2) && r2 != rid ==> #[trigger] post.room_view(r2) == pre.room_view(r2)
    &&& post.room_view(rid).password == pre.room_view(rid).password
    &&& post.room_view(rid).owner == pre.room_view(rid).owner
    &&& post.room_view(rid).members == pre.room_view(rid).members.remove(target)
    &&& post.room_view(rid).log == pre.room_view(rid).log.push(ev)
    &&& forall|m: Seq<char>| #[trigger] post.has_entry(m) == pre.has_entry(m)
    &&& post.has_entry(target)
    &&& !post.in_session(target)
    &&& post.session_view(target) == (SessionView {
        queue: pre.session_view(target).queue.push(ev),
        open: false,
        ..pre.session_view(target)
    })
    &&& forall|m: Seq<char>|
        m != target && pre.has_entry(m) && !(pre.in_session(m) && pre.session_view(m).room == rid)
            ==> #[trigger] post.session_view(m) == pre.session_view(m)
    &&& forall|m: Seq<char>|
        m != target && pre.in_session(m) && (#[trigger] pre.session_view(m)).room == rid
            ==> post.session_view(m) == (SessionView {
            queue: pre.session_view(m).queue.push(ev),
            ..pre.session_view(m)
        })
}

impl ChatCore {
    /// Evicts `target` from a room.  Only the room's owner may kick; the
    /// ownership check and the eviction are one atomic step.  The whole room
    /// — the target included — is told, and the target's session is closed so
    /// its connection terminates without its own cooperation.
    pub fn kick_user(&mut self, room_id: String, requester: &String, target: &String) -> (r:
        Result<(), ErrorResponse>)
        requires
            old(self).wf(),
        ensures
            final(self).wf(),
            !old(self).has_room(room_id@) ==> (r matches Err(ErrorResponse::RoomNotFound {
                room_id: e,
            }) && e@ == room_id@) && *final(self) == *old(self),
            old(self).has_room(room_id@) && old(self).room_view(room_id@).owner != requester@ ==> (
            r matches Err(ErrorResponse::InvalidPermissions { message: m }) && m@
                == "only the room owner may kick"@) && *final(self) == *old(self),
            old(self).has_room(room_id@) && old(self).room_view(room_id@).owner == requester@
                && !old(self).is_member(room_id@, target@) ==> (r matches Err(
                ErrorResponse::NotInRoom { room_id: e },
            ) && e@ == room_id@) && *final(self) == *old(self),
            old(self).has_room(room_id@) && old(self).room_view(room_id@).owner == requester@
                && old(self).is_member(room_id@, target@) ==> r is Ok && kick_post(
                *old(self),
                *final(self),
                room_id@,
                target@,
            ),
    {
        let ghost pre = *self;
        let ghost rid = room_id@;
        let ghost x = target@;
        let i = match self.registry.find_room(&room_id) {
            None => {
                return Err(ErrorResponse::RoomNotFound { room_id });
            },
            Some(i) => i,
        };
        if !(self.registry.rooms[i].owner == *requester) {
            return Err(
                ErrorResponse::InvalidPermissions {
                    message: owned_text("only the room owner may kick"),
                },
            );
        }
        let k = match self.registry.rooms[i].member_index(target) {
            None => {
                return Err(ErrorResponse::NotInRoom { room_id });
            },
            Some(k) => k,
        };
        proof {
            assert(pre.registry.is_member(rid, x));
            assert(pre.sessions.in_session(x) && pre.sessions.entry_of(x).room_id@ == rid);
        }

        // Tell the whole room — the target is still subscribed and gets it.
        let ev = ServerWsMessage::UserKicked { room_id, user_id: target.clone() };
        self.broadcast(i, &ev);
        let ghost mid = *self;
        let ghost evv = ServerMsgView::UserKicked { room_id: rid, user_id: x };

        // Evict the target from the membership.
        proof {
            assert(mid.registry.rooms@[i as int].members == pre.registry.rooms@[i as int].members);
            assert(pre.registry.idx_of(rid) == i);
        }
        let room = &mut self.registry.rooms[i];
        room.members.remove(k);
        let ghost mid2 = *self;

        // Force the target's session closed.
        let j = match self.sessions.find_entry(target) {
            Some(j) => j,
            None => {
                proof {
                    assert(mid.has_entry(x) == pre.has_entry(x));
                    assert(false);
                }
                vstd::pervasive::unreached()
            },
        };
        let entry = &mut self.sessions.sessions[j];
        entry.open = false;

        proof {
            mid.registry.lemma_update_room(mid2.registry, i as int);
            mid2.sessions.lemma_update_entry(self.sessions, j as int);
            assert(self.registry == mid2.registry);
            assert(mid2.sessions == mid.sessions);
            let mo = pre.registry.room_of(rid).members@;
            let mn = mo.remove(k as int);
            assert(mo[k as int]@ == x);
            lemma_name_set_remove(mo, k as int);
            assert(mid2.registry.room_of(rid).members@ == mn);

            // The target's entry after the close.
            assert(mid.session_view(x) == (SessionView {
                queue: pre.session_view(x).queue.push(evv),
                ..pre.session_view(x)
            }));
            assert(mid2.sessions.idx_of(x) == j);
            assert(self.sessions.entry_of(x) == self.sessions.sessions@[j as int]);
            assert(self.session_view(x) == (SessionView {
                queue: pre.session_view(x).queue.push(evv),
                open: false,
                ..pre.session_view(x)
            }));

            // Membership uniqueness after the removal.
            assert forall|a: int, b: int| 0 <= a < b < mn.len() implies mn[a]@ != mn[b]@ by {
                let oa = if a < k as int { a } else { a + 1 };
                let ob = if b < k as int { b } else { b + 1 };
                assert(mn[a] == mo[oa] && mn[b] == mo[ob]);
            }
            assert forall|t: int| 0 <= t < self.registry.rooms@.len() implies (
            #[trigger] self.registry.rooms@[t]).wf() by {
                if t != i as int {
                    assert(self.registry.rooms@[t] == mid.registry.rooms@[t]);
                } else {
                    assert(self.registry.rooms@[t].log@ == mid.registry.rooms@[t].log@);
                    assert(mid.registry.rooms@[t].wf());
                }
            }

            // Frames.
            assert forall|r2: Seq<char>| #[trigger] self.has_room(r2) == pre.has_room(r2) by {
                assert(mid.has_room(r2) == pre.has_room(r2));
                assert(mid2.registry.has_room(r2) == mid.registry.has_room(r2));
            }
            assert forall|r2: Seq<char>| pre.has_room(r2) && r2 != rid implies #[trigger] self.room_view(
                r2,
            ) == pre.room_view(r2) by {
                assert(mid.room_view(r2) == pre.room_view(r2));
                assert(mid.has_room(r2));
                assert(mid.registry.rooms@[i as int].room_id@ == rid);
                assert(mid2.registry.room_of(r2) == mid.registry.room_of(r2));
            }
            assert forall|m: Seq<char>| #[trigger] self.has_entry(m) == pre.has_entry(m) by {
                assert(mid.has_entry(m) == pre.has_entry(m));
                assert(self.sessions.has_entry(m) == mid2.sessions.has_entry(m));
            }
            assert forall|m: Seq<char>|
                m != x && pre.has_entry(m) && !(pre.in_session(m) && pre.session_view(m).room
                    == rid) implies #[trigger] self.session_view(m) == pre.session_view(m) by {
                assert(mid.has_entry(m) == pre.has_entry(m));
                assert(mid.session_view(m) == pre.session_view(m));
                assert(self.sessions.entry_of(m) == mid2.sessions.entry_of(m));
            }
            assert forall|m: Seq<char>|
                m != x && pre.in_session(m) && (#[trigger] pre.session_view(m)).room
                    == rid implies self.session_view(m) == (SessionView {
                queue: pre.session_view(m).queue.push(evv),
                ..pre.session_view(m)
            }) by {
                assert(mid.has_entry(m) == pre.has_entry(m));
                assert(mid.session_view(m) == (SessionView {
                    queue: pre.session_view(m).queue.push(evv),
                    ..pre.session_view(m)
                }));
                assert(self.sessions.entry_of(m) == mid2.sessions.entry_of(m));
            }

            // Cross invariants.
            assert forall|m: Seq<char>| #[trigger] self.sessions.in_session(
                m,
            ) implies self.registry.is_member(self.sessions.entry_of(m).room_id@, m)
                && self.session_synced(m) by {
                assert(m != x);
                assert(self.sessions.entry_of(m) == mid2.sessions.entry_of(m));
                assert(mid.sessions.in_session(m));
                let r2 = mid.sessions.entry_of(m).room_id@;
                assert(mid.registry.is_member(r2, m));
                assert(mid.session_synced(m));
                if r2 == rid {
                    lemma_name_set_contains(mo, m);
                    lemma_name_set_contains(mn, m);
                    assert(name_set(mn) == name_set(mo).remove(x));
                    assert(mid2.registry.room_of(rid).log@ == mid.registry.room_of(rid).log@);
                } else {
                    assert(mid2.registry.room_of(r2) == mid.registry.room_of(r2));
                }
            }
            assert forall|r2: Seq<char>, m: Seq<char>| #[trigger] self.registry.is_member(
                r2,
                m,
            ) implies self.sessions.in_session(m) && self.sessions.entry_of(m).room_id@ == r2 by {
                if r2 == rid {
                    lemma_name_set_contains(mn, m);
                    lemma_name_set_contains(mo, m);
                    assert(name_set(mn) == name_set(mo).remove(x));
                    assert(m != x);
                    assert(mid.registry.is_member(rid, m));
                } else {
                    assert(mid2.registry.room_of(r2) == mid.registry.room_of(r2));
                    assert(mid.registry.is_member(r2, m));
                    if m == x {
                        assert(mid.sessions.entry_of(x).room_id@ == rid);
                        assert(false);
                    }
                }
                assert(mid.sessions.in_session(m));
                assert(self.sessions.entry_of(m) == mid2.sessions.entry_of(m));
            }
        }
        Ok(())
    }
}

/// What a successful owner-initiated deletion does: every member's session
/// receives exactly one deletion notice — its queue held none before — and is
/// closed, the room disappears from the registry, and every other room and
/// session stays as it was.  The room is unregistered in the same atomic
/// step, so no join can race in between the notice and the removal.
pub open spec fn delete_post(pre: ChatCore, post: ChatCore, rid: Seq<char>) -> bool {
    let ev = ServerMsgView::RoomDeleted { room_id: rid };
    &&& !post.has_room(rid)
    &&& forall|r2: Seq<char>| r2 != rid ==> #[trigger] post.has_room(r2) == pre.has_room(r2)
    &&& forall|r2: Seq<char>|
        pre.has_room(r2) && r2 != rid ==> #[trigger] post.room_view(r2) == pre.room_view(r2)
    &&& forall|m: Seq<char>| #[trigger] post.has_entry(m) == pre.has_entry(m)
    &&& forall|m: Seq<char>|
        pre.in_session(m) && (#[trigger] pre.session_view(m)).room == rid ==> post.session_view(m)
            == (SessionView {
            queue: pre.session_view(m).queue.push(ev),
            open: false,
            ..pre.session_view(m)
        }) && !pre.session_view(m).queue.contains(ev)
    &&& forall|m: Seq<char>|
        pre.has_entry(m) && !(pre.in_session(m) && pre.session_view(m).room == rid)
            ==> #[trigger] post.session_view(m) == pre.session_view(m)
}

impl ChatCore {
    /// Deletes a room.  Only the owner may delete; check and deletion are one
    /// atomic step.  Every member's connection receives one deletion notice
    /// and is force-closed, and the room is unregistered before the step
    /// ends, so a later join finds nothing.
    pub fn delete_room(&mut self, room_id: String, requester: &String) -> (r: Result<
        SuccessResponse,
        ErrorResponse,
    >)
        requires
            old(self).wf(),
        ensures
            final(self).wf(),
            !old(self).has_room(room_id@) ==> (r matches Err(ErrorResponse::RoomNotFound {
                room_id: e,
            }) && e@ == room_id@) && *final(self) == *old(self),
            old(self).has_room(room_id@) && old(self).room_view(room_id@).owner != requester@ ==> (
            r matches Err(ErrorResponse::InvalidPermissions { message: m }) && m@
                == "only the room owner may delete"@) && *final(self) == *old(self),
            old(self).has_room(room_id@) && old(self).room_view(room_id@).owner == requester@ ==> (
            r matches Ok(resp) && resp.message@ == "room deleted"@) && delete_post(
                *old(self),
                *final(self),
                room_id@,
            ),
    {
        let ghost pre = *self;
        let ghost rid = room_id@;
        let i = match self.registry.find_room(&room_id) {
            None => {
                return Err(ErrorResponse::RoomNotFound { room_id });
            },
            Some(i) => i,
        };
        if !(self.registry.rooms[i].owner == *requester) {
            return Err(
                ErrorResponse::InvalidPermissions {
                    message: owned_text("only the room owner may delete"),
                },
            );
        }

        // Notify and close every active session of the room.
        let rid_name = room_id;
        let n = self.sessions.sessions.len();
        let mut j: usize = 0;
        while j < n
            invariant
                n == self.sessions.sessions@.len(),
                j <= n,
                self.registry == pre.registry,
                rid_name@ == rid,
                n == pre.sessions.sessions@.len(),
                forall|t: int|
                    0 <= t < j ==> teardown_step(
                        pre.sessions.sessions@[t],
                        #[trigger] self.sessions.sessions@[t],
                        rid,
                    ),
                forall|t: int|
                    j <= t < n ==> #[trigger] self.sessions.sessions@[t]
                        == pre.sessions.sessions@[t],
            decreases n - j,
        {
            if self.sessions.sessions[j].open && self.sessions.sessions[j].room_id == rid_name {
                let notice = ServerWsMessage::RoomDeleted { room_id: rid_name.clone() };
                let entry = &mut self.sessions.sessions[j];
                entry.queue.push(notice);
                entry.open = false;
                proof {
                    lemma_queue_views_push(
                        pre.sessions.sessions@[j as int].queue@,
                        ServerWsMessage::RoomDeleted { room_id: rid_name },
                    );
                }
            }
            j = j + 1;
        }
        let ghost mid = *self;

        // Unregister the room itself.
        self.registry.rooms.remove(i);

        proof {
            let ev = ServerMsgView::RoomDeleted { room_id: rid };
            pre.registry.lemma_remove_room(self.registry, i as int);
            assert(pre.registry.idx_of(rid) == i);
            assert forall|t: int| 0 <= t < mid.sessions.sessions@.len() implies (
            #[trigger] mid.sessions.sessions@[t]).identity@
                == pre.sessions.sessions@[t].identity@ by {
                assert(teardown_step(pre.sessions.sessions@[t], mid.sessions.sessions@[t], rid));
            }
            pre.sessions.lemma_same_ids(mid.sessions);
            assert(self.sessions == mid.sessions);

            // Registry is well-formed: the surviving rooms are untouched.
            assert forall|t: int| 0 <= t < self.registry.rooms@.len() implies (
            #[trigger] self.registry.rooms@[t]).wf() by {
                let ot = if t < i as int { t } else { t + 1 };
                assert(self.registry.rooms@[t] == pre.registry.rooms@[ot]);
            }

            // Entry-level effects, lifted to identities.
            assert forall|m: Seq<char>|
                pre.in_session(m) && (#[trigger] pre.session_view(m)).room
                    == rid implies self.session_view(m) == (SessionView {
                queue: pre.session_view(m).queue.push(ev),
                open: false,
                ..pre.session_view(m)
            }) && !pre.session_view(m).queue.contains(ev) by {
                let t = pre.sessions.idx_of(m);
                assert(teardown_step(pre.sessions.sessions@[t], mid.sessions.sessions@[t], rid));
                assert(mid.sessions.entry_of(m) == mid.sessions.sessions@[t]);
                // The queue held no deletion notice before: it is a slice of
                // the room's log, which never carries one.
                assert(pre.session_synced(m));
                let so = pre.sessions.sessions@[t];
                let log = pre.registry.log_of(rid);
                if pre.session_view(m).queue.contains(ev) {
                    let vq = queue_views(so.queue@);
                    let s0 = so.start@ as int;
                    let ob = so.observed@.len() as int;
                    assert(pre.session_view(m).queue == vq);
                    let q = choose|q: int| 0 <= q < vq.len() && vq[q] == ev;
                    assert(so.observed@ + vq == log.subrange(s0, log.len() as int));
                    assert((so.observed@ + vq).len() == ob + vq.len());
                    assert((so.observed@ + vq)[ob + q] == vq[q]);
                    assert(log.subrange(s0, log.len() as int)[ob + q] == log[s0 + ob + q]);
                    assert(log[s0 + ob + q] == ev);
                    assert(pre.registry.room_of(rid).log_clean());
                    assert(pre.registry.room_of(rid).room_id@ == rid);
                    assert(false);
                }
            }
            assert forall|m: Seq<char>|
                pre.has_entry(m) && !(pre.in_session(m) && pre.session_view(m).room
                    == rid) implies #[trigger] self.session_view(m) == pre.session_view(m) by {
                let t = pre.sessions.idx_of(m);
                assert(teardown_step(pre.sessions.sessions@[t], mid.sessions.sessions@[t], rid));
                assert(mid.sessions.entry_of(m) == mid.sessions.sessions@[t]);
            }

            // Cross invariants for the final state.
            assert forall|m: Seq<char>| #[trigger] self.sessions.in_session(
                m,
            ) implies self.registry.is_member(self.sessions.entry_of(m).room_id@, m)
                && self.session_synced(m) by {
                let t = pre.sessions.idx_of(m);
                assert(teardown_step(pre.sessions.sessions@[t], mid.sessions.sessions@[t], rid));
                assert(mid.sessions.entry_of(m) == mid.sessions.sessions@[t]);
                assert(pre.sessions.in_session(m));
                let r2 = pre.sessions.entry_of(m).room_id@;
                assert(pre.registry.is_member(r2, m));
                assert(r2 != rid);
                assert(self.registry.room_of(r2) == pre.registry.room_of(r2));
                assert(pre.session_synced(m));
            }
            assert forall|r2: Seq<char>, m: Seq<char>| #[trigger] self.registry.is_member(
                r2,
                m,
            ) implies self.sessions.in_session(m) && self.sessions.entry_of(m).room_id@ == r2 by {
                assert(r2 != rid);
                assert(self.registry.room_of(r2) == pre.registry.room_of(r2));
                assert(pre.registry.is_member(r2, m));
                assert(pre.sessions.in_session(m) && pre.sessions.entry_of(m).room_id@ == r2);
                let t = pre.sessions.idx_of(m);
                assert(teardown_step(pre.sessions.sessions@[t], mid.sessions.sessions@[t], rid));
                assert(mid.sessions.entry_of(m) == mid.sessions.sessions@[t]);
            }
        }
        Ok(SuccessResponse { message: owned_text("room deleted") })
    }
}

// ---------------------------------------------------------------------------
// Messaging, teardown, and read-only snapshots
// ---------------------------------------------------------------------------

impl ChatCore {
    /// Publishes one chat message from `identity` to its own room.  Sending
    /// to a room the identity is not currently in — no session, a closed
    /// session, or another room — is a protocol error and changes nothing.
    pub fn send_chat(
        &mut self,
        identity: &String,
        room_id: String,
        content: String,
        message_id: String,
        timestamp: String,
    ) -> (r: Result<(), ErrorResponse>)
        requires
            old(self).wf(),
        ensures
            final(self).wf(),
            !(old(self).in_session(identity@) && old(self).session_view(identity@).room
                == room_id@) ==> (r matches Err(ErrorResponse::NotInRoom { room_id: e }) && e@
                == room_id@) && *final(self) == *old(self),
            old(self).in_session(identity@) && old(self).session_view(identity@).room == room_id@
                ==> r is Ok && broadcast_post(
                *old(self),
                *final(self),
                room_id@,
                ServerMsgView::MessageBroadcast(
                    ChatMessageView {
                        room_id: room_id@,
                        user_id: identity@,
                        message_id: message_id@,
                        content: content@,
                        timestamp: timestamp@,
                    },
                ),
            ),
    {
        let ghost pre = *self;
        let ok = match self.sessions.find_entry(identity) {
            Some(j) => self.sessions.sessions[j].open && self.sessions.sessions[j].room_id
                == room_id,
            None => false,
        };
        if !ok {
            return Err(ErrorResponse::NotInRoom { room_id });
        }
        let i = match self.registry.find_room(&room_id) {
            Some(i) => i,
            None => {
                proof {
                    assert(pre.sessions.in_session(identity@));
                    assert(pre.registry.is_member(pre.sessions.entry_of(identity@).room_id@, identity@));
                    assert(pre.sessions.entry_of(identity@).room_id@ == room_id@);
                    assert(false);
                }
                vstd::pervasive::unreached()
            },
        };
        let msg = ServerWsMessage::MessageBroadcast(
            ChatMessage {
                room_id,
                user_id: identity.clone(),
                message_id,
                content,
                timestamp,
            },
        );
        self.broadcast(i, &msg);
        Ok(())
    }

    /// Tears down `identity`'s connection, whatever state it is in: an active
    /// session leaves its room exactly as a voluntary leave does; an entry
    /// already closed by a kick or deletion is merely dropped, with no notice
    /// to anyone — so teardown racing with a kick or deletion never emits a
    /// second leave notice; with no entry at all, nothing happens.
    pub fn disconnect(&mut self, identity: &String)
        requires
            old(self).wf(),
        ensures
            final(self).wf(),
            old(self).in_session(identity@) ==> leave_post(
                *old(self),
                *final(self),
                old(self).session_view(identity@).room,
                identity@,
            ),
            old(self).has_entry(identity@) && !old(self).in_session(identity@) ==> ({
                &&& final(self).registry == old(self).registry
                &&& !final(self).has_entry(identity@)
                &&& forall|m: Seq<char>|
                    m != identity@ ==> #[trigger] final(self).has_entry(m) == old(self).has_entry(
                        m,
                    )
                &&& forall|m: Seq<char>|
                    m != identity@ && old(self).has_entry(m)
                        ==> #[trigger] final(self).session_view(m) == old(self).session_view(m)
            }),
            !old(self).has_entry(identity@) ==> *final(self) == *old(self),
    {
        let ghost pre = *self;
        let j = match self.sessions.find_entry(identity) {
            None => {
                return ;
            },
            Some(j) => j,
        };
        if self.sessions.sessions[j].open {
            let room = self.sessions.sessions[j].room_id.clone();
            proof {
                assert(pre.sessions.in_session(identity@));
                assert(pre.registry.is_member(room@, identity@));
            }
            let _ = self.leave_room(room, identity);
        } else {
            self.sessions.sessions.remove(j);
            proof {
                pre.sessions.lemma_remove_entry(self.sessions, j as int);
                assert forall|m: Seq<char>| #[trigger] self.sessions.in_session(
                    m,
                ) implies self.registry.is_member(self.sessions.entry_of(m).room_id@, m)
                    && self.session_synced(m) by {
                    assert(m != identity@);
                    assert(self.sessions.entry_of(m) == pre.sessions.entry_of(m));
                    assert(pre.sessions.in_session(m));
                    assert(pre.session_synced(m));
                }
                assert forall|r2: Seq<char>, m: Seq<char>| #[trigger] self.registry.is_member(
                    r2,
                    m,
                ) implies self.sessions.in_session(m) && self.sessions.entry_of(m).room_id@
                    == r2 by {
                    assert(pre.sessions.in_session(m));
                    assert(m != identity@);
                    assert(self.sessions.entry_of(m) == pre.sessions.entry_of(m));
                }
            }
        }
    }

    /// The room `identity`'s active session is bound to, if any.
    pub fn session_room(&self, identity: &String) -> (r: Option<String>)
        requires
            self.wf(),
        ensures
            match r {
                Some(room) => self.in_session(identity@) && room@ == self.session_view(
                    identity@,
                ).room,
                None => !self.in_session(identity@),
            },
    {
        match self.sessions.find_entry(identity) {
            Some(j) => {
                if self.sessions.sessions[j].open {
                    Some(self.sessions.sessions[j].room_id.clone())
                } else {
                    None
                }
            },
            None => None,
        }
    }

    /// Read-only snapshot of a room's current members.
    pub fn list_room_users(&self, room_id: &String) -> (r: Result<
        ListRoomUsersResponse,
        ErrorResponse,
    >)
        requires
            self.wf(),
        ensures
            !self.has_room(room_id@) ==> (r matches Err(ErrorResponse::RoomNotFound { room_id: e })
                && e@ == room_id@),
            self.has_room(room_id@) ==> (r matches Ok(resp) && resp.room_id@ == room_id@
                && resp.active_users@ == self.registry.room_of(room_id@).members@ && name_set(
                resp.active_users@,
            ) == self.room_view(room_id@).members),
    {
        match self.registry.find_room(room_id) {
            None => Err(ErrorResponse::RoomNotFound { room_id: room_id.clone() }),
            Some(i) => {
                let users = clone_names(&self.registry.rooms[i].members);
                Ok(ListRoomUsersResponse { room_id: room_id.clone(), active_users: users })
            },
        }
    }
}

/// The listing a room table yields: one entry per room, in table order,
/// restricted to occupied rooms when `only_active` is set.
pub open spec fn listing(rooms: Seq<Room>, only_active: bool) -> Seq<RoomInfoView>
    decreases rooms.len(),
{
    if rooms.len() == 0 {
        Seq::empty()
    } else {
        let rest = listing(rooms.drop_last(), only_active);
        let last = rooms.last();
        if !only_active || last.members@.len() > 0 {
            rest.push(
                RoomInfoView {
                    room_id: last.room_id@,
                    owner: last.owner@,
                    users_count: last.members@.len(),
                },
            )
        } else {
            rest
        }
    }
}

/// What handling one inbound client command produced, besides the state
/// change: nothing visible, an immediate reply for the sender alone, or the
/// acknowledgement that the sender left its room and its connection should
/// wind down.
pub enum CommandOutcome {
    /// The command took effect through the fanout; no direct reply.
    Accepted,
    /// An immediate keepalive reply, bypassing the fanout.
    Pong(String),
    /// The sender left its room; the connection proceeds to teardown.
    LeftRoom,
}

impl ChatCore {
    /// Handles one decoded command arriving on `identity`'s connection:
    /// a message is validated against the sender's own room and fanned out, a
    /// leave or kick goes to the respective operation, and a ping is answered
    /// immediately.  Every error is recoverable: it is reported to the sender
    /// and the connection stays up.
    pub fn handle_command(
        &mut self,
        identity: &String,
        cmd: ClientWsMessage,
        message_id: String,
        timestamp: String,
    ) -> (r: Result<CommandOutcome, ErrorResponse>)
        requires
            old(self).wf(),
        ensures
            final(self).wf(),
            cmd matches ClientWsMessage::SendMessage { room_id, content } ==> ({
                &&& !(old(self).in_session(identity@) && old(self).session_view(identity@).room
                    == room_id@) ==> (r matches Err(ErrorResponse::NotInRoom { room_id: e }) && e@
                    == room_id@) && *final(self) == *old(self)
                &&& old(self).in_session(identity@) && old(self).session_view(identity@).room
                    == room_id@ ==> (r matches Ok(o) && o is Accepted) && broadcast_post(
                    *old(self),
                    *final(self),
                    room_id@,
                    ServerMsgView::MessageBroadcast(
                        ChatMessageView {
                            room_id: room_id@,
                            user_id: identity@,
                            message_id: message_id@,
                            content: content@,
                            timestamp: timestamp@,
                        },
                    ),
                )
            }),
            cmd matches ClientWsMessage::LeaveRoom { room_id } ==> ({
                &&& !old(self).is_member(room_id@, identity@) ==> (r matches Err(
                    ErrorResponse::NotInRoom { room_id: e },
                ) && e@ == room_id@) && *final(self) == *old(self)
                &&& old(self).is_member(room_id@, identity@) ==> (r matches Ok(o)
                    && o is LeftRoom) && leave_post(*old(self), *final(self), room_id@, identity@)
            }),
            cmd matches ClientWsMessage::KickUser { room_id, user_id } ==> ({
                &&& !old(self).has_room(room_id@) ==> (r matches Err(ErrorResponse::RoomNotFound {
                    room_id: e,
                }) && e@ == room_id@) && *final(self) == *old(self)
                &&& old(self).has_room(room_id@) && old(self).room_view(room_id@).owner
                    != identity@ ==> (r matches Err(ErrorResponse::InvalidPermissions { message: m })
                    && m@ == "only the room owner may kick"@) && *final(self) == *old(self)
                &&& old(self).has_room(room_id@) && old(self).room_view(room_id@).owner
                    == identity@ && !old(self).is_member(room_id@, user_id@) ==> (r matches Err(
                    ErrorResponse::NotInRoom { room_id: e },
                ) && e@ == room_id@) && *final(self) == *old(self)
                &&& old(self).has_room(room_id@) && old(self).room_view(room_id@).owner
                    == identity@ && old(self).is_member(room_id@, user_id@) ==> (r matches Ok(o)
                    && o is Accepted) && kick_post(*old(self), *final(self), room_id@, user_id@)
            }),
            cmd matches ClientWsMessage::Ping { timestamp: ts } ==> (r matches Ok(
                CommandOutcome::Pong(p),
            ) && p@ == ts@) && *final(self) == *old(self),
    {
        match cmd {
            ClientWsMessage::SendMessage { room_id, content } => {
                match self.send_chat(identity, room_id, content, message_id, timestamp) {
                    Ok(_) => Ok(CommandOutcome::Accepted),
                    Err(e) => Err(e),
                }
            },
            ClientWsMessage::LeaveRoom { room_id } => {
                match self.leave_room(room_id, identity) {
                    Ok(_) => Ok(CommandOutcome::LeftRoom),
                    Err(e) => Err(e),
                }
            },
            ClientWsMessage::KickUser { room_id, user_id } => {
                match self.kick_user(room_id, identity, &user_id) {
                    Ok(_) => Ok(CommandOutcome::Accepted),
                    Err(e) => Err(e),
                }
            },
            ClientWsMessage::Ping { timestamp: ts } => Ok(CommandOutcome::Pong(ts)),
        }
    }

    /// Creates a room stamped with the current clock time.  The timestamp
    /// comes from the system clock, so only its presence is promised.
    pub fn create_room_now(&mut self, room_id: String, room_password: String, owner: String) -> (r:
        Result<CreateRoomResponse, ErrorResponse>)
        requires
            old(self).wf(),
        ensures
            final(self).wf(),
            old(self).has_room(room_id@) ==> (r matches Err(ErrorResponse::RoomAlreadyExists {
                room_id: e,
            }) && e@ == room_id@) && *final(self) == *old(self),
            !old(self).has_room(room_id@) ==> (r matches Ok(resp) && resp.room_id@ == room_id@)
                && create_post(*old(self), *final(self), room_id@, room_password@, owner@),
    {
        let ts = crate::clock::now_rfc3339();
        self.create_room(room_id, room_password, owner, ts)
    }

    /// Handles one inbound command, stamping any outgoing chat message with a
    /// fresh random id and the current clock time.  Whatever id and time come
    /// back from those generators, the fanout carries the sender's room,
    /// identity and content exactly.
    pub fn handle_command_now(&mut self, identity: &String, cmd: ClientWsMessage) -> (r: Result<
        CommandOutcome,
        ErrorResponse,
    >)
        requires
            old(self).wf(),
        ensures
            final(self).wf(),
            cmd matches ClientWsMessage::SendMessage { room_id, content } ==> ({
                &&& !(old(self).in_session(identity@) && old(self).session_view(identity@).room
                    == room_id@) ==> (r matches Err(ErrorResponse::NotInRoom { room_id: e }) && e@
                    == room_id@) && *final(self) == *old(self)
                &&& old(self).in_session(identity@) && old(self).session_view(identity@).room
                    == room_id@ ==> (r matches Ok(o) && o is Accepted) && exists|mv: ChatMessageView|
                    mv.room_id == room_id@ && mv.user_id == identity@ && mv.content == content@
                        && #[trigger] broadcast_post(
                        *old(self),
                        *final(self),
                        room_id@,
                        ServerMsgView::MessageBroadcast(mv),
                    )
            }),
            cmd matches ClientWsMessage::LeaveRoom { room_id } ==> ({
                &&& !old(self).is_member(room_id@, identity@) ==> (r matches Err(
                    ErrorResponse::NotInRoom { room_id: e },
                ) && e@ == room_id@) && *final(self) == *old(self)
                &&& old(self).is_member(room_id@, identity@) ==> (r matches Ok(o)
                    && o is LeftRoom) && leave_post(*old(self), *final(self), room_id@, identity@)
            }),
            cmd matches ClientWsMessage::KickUser { room_id, user_id } ==> ({
                &&& !old(self).has_room(room_id@) ==> (r matches Err(ErrorResponse::RoomNotFound {
                    room_id: e,
                }) && e@ == room_id@) && *final(self) == *old(self)
                &&& old(self).has_room(room_id@) && old(self).room_view(room_id@).owner
                    != identity@ ==> (r matches Err(ErrorResponse::InvalidPermissions { message: m })
                    && m@ == "only the room owner may kick"@) && *final(self) == *old(self)
                &&& old(self).has_room(room_id@) && old(self).room_view(room_id@).owner
                    == identity@ && !old(self).is_member(room_id@, user_id@) ==> (r matches Err(
                    ErrorResponse::NotInRoom { room_id: e },
                ) && e@ == room_id@) && *final(self) == *old(self)
                &&& old(self).has_room(room_id@) && old(self).room_view(room_id@).owner
                    == identity@ && old(self).is_member(room_id@, user_id@) ==> (r matches Ok(o)
                    && o is Accepted) && kick_post(*old(self), *final(self), room_id@, user_id@)
            }),
            cmd matches ClientWsMessage::Ping { timestamp: ts } ==> (r matches Ok(
                CommandOutcome::Pong(p),
            ) && p@ == ts@) && *final(self) == *old(self),
    {
        let fresh_id = crate::idgen::new_message_id();
        let stamp = crate::clock::now_rfc3339();
        let ghost mid_v = fresh_id@;
        let ghost ts_v = stamp@;
        let ghost cmd_g = cmd;
        let r = self.handle_command(identity, cmd, fresh_id, stamp);
        proof {
            match cmd_g {
                ClientWsMessage::SendMessage { room_id, content } => {
                    if old(self).in_session(identity@) && old(self).session_view(identity@).room
                        == room_id@ {
                        let mv = ChatMessageView {
                            room_id: room_id@,
                            user_id: identity@,
                            message_id: mid_v,
                            content: content@,
                            timestamp: ts_v,
                        };
                        assert(broadcast_post(
                            *old(self),
                            *self,
                            room_id@,
                            ServerMsgView::MessageBroadcast(mv),
                        ));
                    }
                },
                _ => {},
            }
        }
        r
    }

    /// Read-only listing of rooms: id, owner and occupancy of each room, in
    /// table order; with `only_active`, only rooms that have members.
    pub fn list_rooms(&self, only_active: bool) -> (r: ListRoomsResponse)
        ensures
            r.rooms@.map_values(|ri: RoomInfo| ri@) == listing(self.registry.rooms@, only_active),
    {
        let mut out: Vec<RoomInfo> = Vec::new();
        let n = self.registry.rooms.len();
        let mut i: usize = 0;
        while i < n
            invariant
                n == self.registry.rooms@.len(),
                i <= n,
                out@.map_values(|ri: RoomInfo| ri@) == listing(
                    self.registry.rooms@.take(i as int),
                    only_active,
                ),
            decreases n - i,
        {
            let ghost taken_more = self.registry.rooms@.take(i as int + 1);
            proof {
                assert(taken_more.drop_last() =~= self.registry.rooms@.take(i as int));
                assert(taken_more.last() == self.registry.rooms@[i as int]);
            }
            let room = &self.registry.rooms[i];
            if !only_active || room.members.len() > 0 {
                out.push(
                    RoomInfo {
                        room_id: room.room_id.clone(),
                        owner: room.owner.clone(),
                        users_count: room.members.len(),
                    },
                );
                proof {
                    assert(out@.map_values(|ri: RoomInfo| ri@) =~= listing(
                        taken_more,
                        only_active,
                    ));
                }
            }
            i = i + 1;
        }
        proof {
            assert(self.registry.rooms@.take(n as int) =~= self.registry.rooms@);
        }
        ListRoomsResponse { rooms: out }
    }
}

} // verus!
