//! Broadcast hub: the per-room fanout.
//!
//! Each room is one logical fanout point: publishing appends the event to
//! the room's ghost log — the single sequencing point per room — and
//! delivers one copy to the pending queue of every active session of the
//! room, atomically.  Draining hands a connection its pending events oldest
//! first, so every subscriber observes the events of its room in the same
//! order, the publish order.  Subscriptions are created by the join step,
//! closed by kick and deletion, removed by leave and teardown; a closed or
//! removed subscription receives nothing further.
//!
//! Slow consumers — the policy, stated rather than left to chance: the core
//! never drops a delivered event; a subscriber that does not drain holds up
//! only its own pending queue, never another subscriber or another room.
//! The runtime around the library is expected to tear down a connection
//! whose transport stalls, which runs the ordinary teardown path and frees
//! the queue.
use vstd::prelude::*;

use crate::engine::ChatCore;
use crate::engine::RoomView;
use crate::engine::SessionView;
use crate::messages::ServerMsgView;
use crate::messages::ServerWsMessage;
use crate::registry::Room;
use crate::sessions::delivered_step;
use crate::sessions::queue_views;

verus! {

/// What one publish step does: the event goes to the end of the room's log
/// and to the end of the pending queue of every active session of the room;
/// nothing else changes.  Sessions already closed or bound to other rooms
/// never see it.
pub open spec fn broadcast_post(pre: ChatCore, post: ChatCore, rid: Seq<char>, ev: ServerMsgView) -> bool {
    &&& forall|r2: Seq<char>| #[trigger] post.has_room(r2) == pre.has_room(r2)
    &&& forall|r2: Seq<char>|
        pre.has_room(r2) && r2 != rid ==> #[trigger] post.room_view(r2) == pre.room_view(r2)
    &&& post.room_view(rid) == (RoomView { log: pre.room_view(rid).log.push(ev), ..pre.room_view(rid) })
    &&& forall|m: Seq<char>| #[trigger] post.has_entry(m) == pre.has_entry(m)
    &&& forall|m: Seq<char>|
        pre.has_entry(m) && !(pre.in_session(m) && pre.session_view(m).room == rid)
            ==> #[trigger] post.session_view(m) == pre.session_view(m)
    &&& forall|m: Seq<char>|
        pre.in_session(m) && (#[trigger] pre.session_view(m)).room == rid ==> post.session_view(m)
            == (SessionView { queue: pre.session_view(m).queue.push(ev), ..pre.session_view(m) })
}

/// How one fanout delivery changes the published room: only the log grows,
/// by exactly the published event.
pub open spec fn log_push_step(ro: Room, rn: Room, e: ServerMsgView) -> bool {
    &&& rn.room_id == ro.room_id
    &&& rn.room_password == ro.room_password
    &&& rn.owner == ro.owner
    &&& rn.members == ro.members
    &&& rn.log@ == ro.log@.push(e)
}

/// Mapping a push through the views distributes.
pub proof fn lemma_queue_views_push(q: Seq<ServerWsMessage>, m: ServerWsMessage)
    ensures
        queue_views(q.push(m)) == queue_views(q).push(m@),
{
    assert(queue_views(q.push(m)) =~= queue_views(q).push(m@));
}

/// Pushing onto a sequence extends any tail subrange by the pushed element.
pub proof fn lemma_subrange_push<T>(l: Seq<T>, a: int, e: T)
    requires
        0 <= a <= l.len(),
    ensures
        l.push(e).subrange(a, l.len() as int + 1) == l.subrange(a, l.len() as int).push(e),
{
    assert(l.push(e).subrange(a, l.len() as int + 1) =~= l.subrange(a, l.len() as int).push(e));
}

/// Lifts the pointwise effect of one fanout delivery — log pushed at index
/// `i`, queues extended entry by entry — to the abstract accessors, and shows
/// it preserves well-formedness.
proof fn lemma_broadcast_lift(pre: ChatCore, post: ChatCore, i: int, event: ServerWsMessage)
    requires
        pre.wf(),
        0 <= i < pre.registry.rooms@.len(),
        event@ != (ServerMsgView::RoomDeleted { room_id: pre.registry.rooms@[i].room_id@ }),
        post.registry.rooms@.len() == pre.registry.rooms@.len(),
        forall|t: int|
            0 <= t < pre.registry.rooms@.len() && t != i ==> #[trigger] post.registry.rooms@[t]
                == pre.registry.rooms@[t],
        log_push_step(pre.registry.rooms@[i], post.registry.rooms@[i], event@),
        post.sessions.sessions@.len() == pre.sessions.sessions@.len(),
        forall|t: int|
            0 <= t < pre.sessions.sessions@.len() ==> delivered_step(
                pre.sessions.sessions@[t],
                #[trigger] post.sessions.sessions@[t],
                pre.registry.rooms@[i].room_id@,
                event,
            ),
    ensures
        post.wf(),
        broadcast_post(pre, post, pre.registry.rooms@[i].room_id@, event@),
{
    let rid = pre.registry.rooms@[i].room_id@;
    let ev = event@;

    // Keys are stable on both tables.
    assert forall|t: int| 0 <= t < pre.registry.rooms@.len() implies (
    #[trigger] post.registry.rooms@[t]).room_id@ == pre.registry.rooms@[t].room_id@ by {}
    pre.registry.lemma_same_keys(post.registry);
    assert forall|t: int| 0 <= t < pre.sessions.sessions@.len() implies (
    #[trigger] post.sessions.sessions@[t]).identity@ == pre.sessions.sessions@[t].identity@ by {
        assert(delivered_step(
            pre.sessions.sessions@[t],
            post.sessions.sessions@[t],
            rid,
            event,
        ));
    }
    pre.sessions.lemma_same_ids(post.sessions);
    pre.registry.lemma_idx_unique(rid, i);

    // Memberships are untouched everywhere.
    assert forall|r2: Seq<char>, m: Seq<char>| true implies #[trigger] post.registry.is_member(
        r2,
        m,
    ) == pre.registry.is_member(r2, m) by {
        if pre.registry.has_room(r2) {
            let t = pre.registry.idx_of(r2);
            assert(post.registry.rooms@[t].members == pre.registry.rooms@[t].members);
        }
    }

    // Room views: untouched rooms keep their view, the published room's log
    // grows by the event.
    assert forall|r2: Seq<char>| pre.has_room(r2) && r2 != rid implies #[trigger] post.room_view(
        r2,
    ) == pre.room_view(r2) by {
        let t = pre.registry.idx_of(r2);
        assert(t != i);
        assert(post.registry.rooms@[t] == pre.registry.rooms@[t]);
    }
    assert(post.room_view(rid) == RoomView {
        log: pre.room_view(rid).log.push(ev),
        ..pre.room_view(rid)
    });

    // Session views: active sessions of the room gain the event at the end of
    // their queue; everything else is untouched.
    assert forall|m: Seq<char>|
        pre.has_entry(m) && !(pre.in_session(m) && pre.session_view(m).room
            == rid) implies #[trigger] post.session_view(m) == pre.session_view(m) by {
        let t = pre.sessions.idx_of(m);
        assert(delivered_step(pre.sessions.sessions@[t], post.sessions.sessions@[t], rid, event));
        assert(post.sessions.sessions@[t] == pre.sessions.sessions@[t]);
    }
    assert forall|m: Seq<char>|
        pre.in_session(m) && (#[trigger] pre.session_view(m)).room == rid implies post.session_view(
        m,
    ) == (SessionView {
        queue: pre.session_view(m).queue.push(ev),
        ..pre.session_view(m)
    }) by {
        let t = pre.sessions.idx_of(m);
        assert(delivered_step(pre.sessions.sessions@[t], post.sessions.sessions@[t], rid, event));
        lemma_queue_views_push(pre.sessions.sessions@[t].queue@, event);
    }

    // Openness is untouched.
    assert forall|m: Seq<char>| true implies #[trigger] post.in_session(m) == pre.in_session(
        m,
    ) by {
        if pre.has_entry(m) {
            let t = pre.sessions.idx_of(m);
            assert(delivered_step(
                pre.sessions.sessions@[t],
                post.sessions.sessions@[t],
                rid,
                event,
            ));
        }
    }

    // Well-formedness of the registry.
    assert forall|t: int| 0 <= t < post.registry.rooms@.len() implies (
    #[trigger] post.registry.rooms@[t]).wf() by {
        if t == i {
            let ro = pre.registry.rooms@[i];
            let rn = post.registry.rooms@[i];
            assert(rn.members_unique());
            assert forall|e: int| 0 <= e < rn.log@.len() implies rn.log@[e]
                != (ServerMsgView::RoomDeleted { room_id: rn.room_id@ }) by {
                if e < ro.log@.len() {
                    assert(ro.log@[e] != (ServerMsgView::RoomDeleted { room_id: ro.room_id@ }));
                }
            }
        }
    }

    // Cross invariants.
    assert forall|m: Seq<char>| #[trigger] post.sessions.in_session(m) implies post.registry.is_member(
        post.sessions.entry_of(m).room_id@,
        m,
    ) by {
        let t = pre.sessions.idx_of(m);
        assert(delivered_step(pre.sessions.sessions@[t], post.sessions.sessions@[t], rid, event));
        assert(pre.sessions.in_session(m));
        assert(post.sessions.entry_of(m).room_id@ == pre.sessions.entry_of(m).room_id@);
    }
    assert forall|r2: Seq<char>, m: Seq<char>| #[trigger] post.registry.is_member(
        r2,
        m,
    ) implies post.sessions.in_session(m) && post.sessions.entry_of(m).room_id@ == r2 by {
        assert(pre.registry.is_member(r2, m));
        let t = pre.sessions.idx_of(m);
        assert(delivered_step(pre.sessions.sessions@[t], post.sessions.sessions@[t], rid, event));
    }

    // Queues stay synced with logs.
    assert forall|m: Seq<char>| #[trigger] post.sessions.in_session(m) implies post.session_synced(
        m,
    ) by {
        assert(pre.sessions.in_session(m));
        assert(pre.session_synced(m));
        let so = pre.sessions.entry_of(m);
        let sn = post.sessions.entry_of(m);
        let t = pre.sessions.idx_of(m);
        assert(delivered_step(pre.sessions.sessions@[t], post.sessions.sessions@[t], rid, event));
        let r2 = so.room_id@;
        let log = pre.registry.log_of(r2);
        if so.open && r2 == rid {
            assert(post.registry.log_of(r2) == log.push(ev));
            lemma_queue_views_push(so.queue@, event);
            assert(so.observed@ + queue_views(so.queue@).push(ev) == (so.observed@ + queue_views(
                so.queue@,
            )).push(ev));
            lemma_subrange_push(log, so.start@ as int, ev);
            assert(sn.observed@ + queue_views(sn.queue@) == log.push(ev).subrange(
                so.start@ as int,
                log.len() as int + 1,
            ));
        } else {
            assert(sn == so);
            let tr = pre.registry.idx_of(r2);
            assert(tr != i);
            assert(post.registry.rooms@[tr] == pre.registry.rooms@[tr]);
        }
    }
}

impl ChatCore {
    /// Publish `event` to the room at index `i`: the single per-room
    /// sequencing point.  Appends the event to the room's log and delivers a
    /// copy to every active session of the room, atomically.
    pub(crate) fn broadcast(&mut self, i: usize, event: &ServerWsMessage)
        requires
            old(self).wf(),
            i < old(self).registry.rooms@.len(),
            event@ != (ServerMsgView::RoomDeleted {
                room_id: old(self).registry.rooms@[i as int].room_id@,
            }),
        ensures
            final(self).wf(),
            broadcast_post(
                *old(self),
                *final(self),
                old(self).registry.rooms@[i as int].room_id@,
                event@,
            ),
            final(self).registry.rooms@.len() == old(self).registry.rooms@.len(),
            forall|t: int|
                0 <= t < old(self).registry.rooms@.len() && t != i
                    ==> #[trigger] final(self).registry.rooms@[t] == old(self).registry.rooms@[t],
            log_push_step(
                old(self).registry.rooms@[i as int],
                final(self).registry.rooms@[i as int],
                event@,
            ),
            final(self).sessions.sessions@.len() == old(self).sessions.sessions@.len(),
            forall|t: int|
                0 <= t < old(self).sessions.sessions@.len() ==> delivered_step(
                    old(self).sessions.sessions@[t],
                    #[trigger] final(self).sessions.sessions@[t],
                    old(self).registry.rooms@[i as int].room_id@,
                    *event,
                ),
    {
        let ghost pre = *self;
        let ghost rid = pre.registry.rooms@[i as int].room_id@;

        // Sequence the event on the room's log.
        let rid_name: String = self.registry.rooms[i].room_id.clone();
        let room = &mut self.registry.rooms[i];
        room.log = Ghost(room.log@.push(event@));

        let ghost mid = *self;

        // Deliver a copy to every active session of the room.
        let n = self.sessions.sessions.len();
        let mut j: usize = 0;
        while j < n
            invariant
                n == self.sessions.sessions@.len(),
                j <= n,
                self.registry == mid.registry,
                rid_name@ == rid,
                mid.sessions == pre.sessions,
                n == pre.sessions.sessions@.len(),
                forall|t: int|
                    0 <= t < j ==> delivered_step(
                        pre.sessions.sessions@[t],
                        #[trigger] self.sessions.sessions@[t],
                        rid,
                        *event,
                    ),
                forall|t: int|
                    j <= t < n ==> #[trigger] self.sessions.sessions@[t]
                        == pre.sessions.sessions@[t],
            decreases n - j,
        {
            if self.sessions.sessions[j].open && self.sessions.sessions[j].room_id == rid_name {
                let entry = &mut self.sessions.sessions[j];
                entry.queue.push(event.clone());
            }
            j = j + 1;
        }

        proof {
            assert(log_push_step(pre.registry.rooms@[i as int], self.registry.rooms@[i as int], event@));
            lemma_broadcast_lift(pre, *self, i as int, *event);
        }
    }
}


impl ChatCore {
    /// Drains the next pending event of `identity`'s connection, oldest
    /// first.  For an active session the event handed out is exactly the next
    /// entry of the room's publish log after those already observed, so
    /// successive drains observe the log in publish order, each event once.
    pub fn recv_event(&mut self, identity: &String) -> (r: Option<ServerWsMessage>)
        requires
            old(self).wf(),
        ensures
            final(self).wf(),
            !old(self).has_entry(identity@) ==> r is None && *final(self) == *old(self),
            old(self).has_entry(identity@) && old(self).session_view(identity@).queue.len() == 0
                ==> r is None && *final(self) == *old(self),
            old(self).has_entry(identity@) && old(self).session_view(identity@).queue.len() > 0
                ==> ({
                let sv = old(self).session_view(identity@);
                &&& r matches Some(m) && m@ == sv.queue[0]
                &&& final(self).registry == old(self).registry
                &&& forall|m2: Seq<char>| #[trigger]
                    final(self).has_entry(m2) == old(self).has_entry(m2)
                &&& final(self).session_view(identity@) == (SessionView {
                    queue: sv.queue.subrange(1, sv.queue.len() as int),
                    observed: sv.observed.push(sv.queue[0]),
                    ..sv
                })
                &&& forall|m2: Seq<char>|
                    m2 != identity@ && old(self).has_entry(m2)
                        ==> #[trigger] final(self).session_view(m2) == old(self).session_view(m2)
            }),
            old(self).in_session(identity@) && old(self).session_view(identity@).queue.len() > 0
                ==> ({
                let sv = old(self).session_view(identity@);
                r matches Some(m) && m@ == old(self).room_view(sv.room).log[sv.start as int
                    + sv.observed.len() as int]
            }),
    {
        let ghost pre = *self;
        let j = match self.sessions.find_entry(identity) {
            None => {
                return None;
            },
            Some(j) => j,
        };
        if self.sessions.sessions[j].queue.len() == 0 {
            return None;
        }
        let entry = &mut self.sessions.sessions[j];
        let msg = entry.queue.remove(0);
        entry.observed = Ghost(entry.observed@.push(msg@));
        proof {
            let id = identity@;
            let so = pre.sessions.sessions@[j as int];
            let sn = self.sessions.sessions@[j as int];
            pre.sessions.lemma_update_entry(self.sessions, j as int);
            let vq = queue_views(so.queue@);
            assert(queue_views(sn.queue@) =~= vq.remove(0));
            assert(sn.observed@ + queue_views(sn.queue@) =~= so.observed@ + vq);
            assert(self.session_view(id) == (SessionView {
                queue: pre.session_view(id).queue.subrange(
                    1,
                    pre.session_view(id).queue.len() as int,
                ),
                observed: pre.session_view(id).observed.push(pre.session_view(id).queue[0]),
                ..pre.session_view(id)
            })) by {
                assert(vq.remove(0) =~= vq.subrange(1, vq.len() as int));
            }
            assert forall|m: Seq<char>| #[trigger] self.sessions.in_session(
                m,
            ) implies self.registry.is_member(self.sessions.entry_of(m).room_id@, m)
                && self.session_synced(m) by {
                assert(pre.sessions.in_session(m));
                assert(pre.session_synced(m));
                if m == id {
                    assert(self.sessions.entry_of(m) == sn);
                } else {
                    assert(self.sessions.entry_of(m) == pre.sessions.entry_of(m));
                }
            }
            assert forall|r2: Seq<char>, m: Seq<char>| #[trigger] self.registry.is_member(
                r2,
                m,
            ) implies self.sessions.in_session(m) && self.sessions.entry_of(m).room_id@ == r2 by {
                assert(pre.sessions.in_session(m) && pre.sessions.entry_of(m).room_id@ == r2);
                if m == id {
                    assert(self.sessions.entry_of(m) == sn);
                }
            }
            if pre.in_session(id) {
                let sv = pre.session_view(id);
                let log = pre.registry.log_of(sv.room);
                assert(sv.observed + sv.queue == log.subrange(sv.start as int, log.len() as int));
                assert(sv.queue[0] == log.subrange(sv.start as int, log.len() as int)[sv.observed.len() as int]);
            }
        }
        Some(msg)
    }
}

} // verus!
