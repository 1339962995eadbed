//! Session table: the live binding between an authenticated identity and its
//! current room, together with the identity's outbound event queue — the sink
//! through which the fanout delivers events to that identity's connection.
//!
//! An entry with `open == true` is an active session.  A closed entry is a
//! connection in teardown: it no longer belongs to any room and receives no
//! further fanout, but its queue keeps the events delivered before it was
//! closed (among them the kick or deletion notice) until the connection's
//! actor drains them and unregisters.  At most one entry — open or closed —
//! exists per identity: a new session for the same identity can be registered
//! only once the old connection has finished its teardown.
use vstd::prelude::*;

use crate::messages::ServerMsgView;
use crate::messages::ServerWsMessage;

verus! {

/// The views of the queued events, oldest first.
pub open spec fn queue_views(q: Seq<ServerWsMessage>) -> Seq<ServerMsgView> {
    q.map_values(|m: ServerWsMessage| m@)
}

/// One connection's session state.
pub struct Session {
    pub identity: String,
    pub room_id: String,
    /// Events delivered to this identity and not yet drained, oldest first.
    pub queue: Vec<ServerWsMessage>,
    /// True while the session is subscribed to its room's fanout.
    pub open: bool,
    /// Length of the room's publish log at subscription time (ghost).
    pub start: Ghost<nat>,
    /// Views of the events already drained from the queue, in drain order
    /// (ghost): the observation history of this subscriber.
    pub observed: Ghost<Seq<ServerMsgView>>,
}

/// How one fanout delivery changes a single entry: an active session of the
/// published room gets the event at the end of its queue and nothing else
/// changes; every other entry stays exactly as it was.
pub open spec fn delivered_step(so: Session, sn: Session, rid: Seq<char>, e: ServerWsMessage) -> bool {
    if so.open && so.room_id@ == rid {
        &&& sn.identity == so.identity
        &&& sn.room_id == so.room_id
        &&& sn.open == so.open
        &&& sn.start == so.start
        &&& sn.observed == so.observed
        &&& sn.queue@ == so.queue@.push(e)
    } else {
        sn == so
    }
}

/// How a room teardown changes a single entry: an active session of the torn
/// down room gets the deletion notice at the end of its queue and is closed;
/// every other entry stays exactly as it was.
pub open spec fn teardown_step(so: Session, sn: Session, rid: Seq<char>) -> bool {
    if so.open && so.room_id@ == rid {
        &&& sn.identity == so.identity
        &&& sn.room_id == so.room_id
        &&& !sn.open
        &&& sn.start == so.start
        &&& sn.observed == so.observed
        &&& queue_views(sn.queue@) == queue_views(so.queue@).push(
            ServerMsgView::RoomDeleted { room_id: rid },
        )
    } else {
        sn == so
    }
}

/// The table of all session entries; identities are unique.
pub struct SessionTable {
    pub sessions: Vec<Session>,
}

impl SessionTable {
    pub open spec fn unique_ids(self) -> bool {
        forall|i: int, j: int|
            0 <= i < j < self.sessions@.len() ==> self.sessions@[i].identity@
                != self.sessions@[j].identity@
    }

    /// Some entry — open or closed — exists for `id`.
    pub open spec fn has_entry(self, id: Seq<char>) -> bool {
        exists|i: int| 0 <= i < self.sessions@.len() && self.sessions@[i].identity@ == id
    }

    /// Index of the entry for `id`; meaningful only when `has_entry(id)`.
    pub open spec fn idx_of(self, id: Seq<char>) -> int {
        choose|i: int| 0 <= i < self.sessions@.len() && self.sessions@[i].identity@ == id
    }

    pub open spec fn entry_of(self, id: Seq<char>) -> Session {
        self.sessions@[self.idx_of(id)]
    }

    /// The identity has an active session: an open entry.
    pub open spec fn in_session(self, id: Seq<char>) -> bool {
        self.has_entry(id) && self.entry_of(id).open
    }

    /// The room the identity's active session is bound to.
    pub open spec fn room_of(self, id: Seq<char>) -> Seq<char> {
        self.entry_of(id).room_id@
    }

    /// Views of the events pending in the identity's outbound queue.
    pub open spec fn queue_of(self, id: Seq<char>) -> Seq<ServerMsgView> {
        queue_views(self.entry_of(id).queue@)
    }

    /// Under unique identities, any index holding `id` is `idx_of(id)`.
    pub proof fn lemma_idx_unique(self, id: Seq<char>, i: int)
        requires
            self.unique_ids(),
            0 <= i < self.sessions@.len(),
            self.sessions@[i].identity@ == id,
        ensures
            self.idx_of(id) == i,
            self.has_entry(id),
    {
        let c = self.idx_of(id);
        assert(0 <= c < self.sessions@.len() && self.sessions@[c].identity@ == id);
        if c != i {
            if c < i {
                assert(self.sessions@[c].identity@ != self.sessions@[i].identity@);
            } else {
                assert(self.sessions@[i].identity@ != self.sessions@[c].identity@);
            }
        }
    }

    /// Two tables whose entries carry the same identities at the same
    /// positions agree on which entries exist and where they sit.
    pub proof fn lemma_same_ids(self, other: SessionTable)
        requires
            self.unique_ids(),
            other.sessions@.len() == self.sessions@.len(),
            forall|t: int|
                0 <= t < self.sessions@.len() ==> (#[trigger] other.sessions@[t]).identity@
                    == self.sessions@[t].identity@,
        ensures
            other.unique_ids(),
            forall|m: Seq<char>| #[trigger] other.has_entry(m) == self.has_entry(m),
            forall|m: Seq<char>|
                self.has_entry(m) ==> #[trigger] other.idx_of(m) == self.idx_of(m),
    {
        assert forall|m: Seq<char>| #[trigger] other.has_entry(m) == self.has_entry(m) by {
            if self.has_entry(m) {
                let t = self.idx_of(m);
                assert(other.sessions@[t].identity@ == m);
            }
            if other.has_entry(m) {
                let t = choose|t: int|
                    0 <= t < other.sessions@.len() && other.sessions@[t].identity@ == m;
                assert(self.sessions@[t].identity@ == m);
            }
        };
        assert forall|m: Seq<char>| self.has_entry(m) implies #[trigger] other.idx_of(m)
            == self.idx_of(m) by {
            assert(other.has_entry(m));
            let t2 = other.idx_of(m);
            assert(0 <= t2 < other.sessions@.len() && other.sessions@[t2].identity@ == m);
            assert(self.sessions@[t2].identity@ == m);
            self.lemma_idx_unique(m, t2);
        };
    }

    /// Replacing the entry at `j` without renaming it leaves every other
    /// entry, and the table's key structure, untouched.
    pub proof fn lemma_update_entry(self, post: SessionTable, j: int)
        requires
            self.unique_ids(),
            0 <= j < self.sessions@.len(),
            post.sessions@.len() == self.sessions@.len(),
            forall|t: int|
                0 <= t < self.sessions@.len() && t != j ==> #[trigger] post.sessions@[t]
                    == self.sessions@[t],
            post.sessions@[j].identity@ == self.sessions@[j].identity@,
        ensures
            post.unique_ids(),
            forall|m: Seq<char>| #[trigger] post.has_entry(m) == self.has_entry(m),
            self.idx_of(self.sessions@[j].identity@) == j,
            post.idx_of(self.sessions@[j].identity@) == j,
            forall|m: Seq<char>|
                m != self.sessions@[j].identity@ && self.has_entry(m)
                    ==> #[trigger] post.entry_of(m) == self.entry_of(m),
    {
        let id = self.sessions@[j].identity@;
        assert forall|t: int| 0 <= t < self.sessions@.len() implies (
        #[trigger] post.sessions@[t]).identity@ == self.sessions@[t].identity@ by {}
        self.lemma_same_ids(post);
        self.lemma_idx_unique(id, j);
        post.lemma_idx_unique(id, j);
        assert forall|m: Seq<char>| m != id && self.has_entry(m) implies #[trigger] post.entry_of(
            m,
        ) == self.entry_of(m) by {
            let t = self.idx_of(m);
            assert(t != j);
            assert(post.sessions@[t] == self.sessions@[t]);
        }
    }

    /// Removing the entry at `j` leaves every other entry reachable and
    /// unchanged.
    pub proof fn lemma_remove_entry(self, post: SessionTable, j: int)
        requires
            self.unique_ids(),
            0 <= j < self.sessions@.len(),
            post.sessions@ == self.sessions@.remove(j),
        ensures
            post.unique_ids(),
            !post.has_entry(self.sessions@[j].identity@),
            forall|m: Seq<char>|
                m != self.sessions@[j].identity@ ==> #[trigger] post.has_entry(m)
                    == self.has_entry(m),
            forall|m: Seq<char>|
                m != self.sessions@[j].identity@ && self.has_entry(m)
                    ==> #[trigger] post.entry_of(m) == self.entry_of(m),
    {
        let id = self.sessions@[j].identity@;
        self.lemma_idx_unique(id, j);
        assert forall|a: int, b: int| 0 <= a < b < post.sessions@.len() implies post.sessions@[a].identity@
            != post.sessions@[b].identity@ by {
            let oa = if a < j { a } else { a + 1 };
            let ob = if b < j { b } else { b + 1 };
            assert(post.sessions@[a] == self.sessions@[oa]);
            assert(post.sessions@[b] == self.sessions@[ob]);
        }
        if post.has_entry(id) {
            let t = choose|t: int|
                0 <= t < post.sessions@.len() && post.sessions@[t].identity@ == id;
            let ot = if t < j { t } else { t + 1 };
            assert(post.sessions@[t] == self.sessions@[ot]);
            assert(ot != j);
            self.lemma_idx_unique(id, ot);
            assert(false);
        }
        assert forall|m: Seq<char>| m != id implies #[trigger] post.has_entry(m) == self.has_entry(
            m,
        ) by {
            if self.has_entry(m) {
                let t = self.idx_of(m);
                assert(t != j);
                let nt = if t < j { t } else { t - 1 };
                assert(post.sessions@[nt] == self.sessions@[t]);
            }
            if post.has_entry(m) {
                let t = choose|t: int|
                    0 <= t < post.sessions@.len() && post.sessions@[t].identity@ == m;
                let ot = if t < j { t } else { t + 1 };
                assert(post.sessions@[t] == self.sessions@[ot]);
            }
        }
        assert forall|m: Seq<char>| m != id && self.has_entry(m) implies #[trigger] post.entry_of(
            m,
        ) == self.entry_of(m) by {
            let t = self.idx_of(m);
            assert(t != j);
            let nt = if t < j { t } else { t - 1 };
            assert(post.sessions@[nt] == self.sessions@[t]);
            post.lemma_idx_unique(m, nt);
        }
    }

    /// Index of the entry for `identity`, if present.
    pub fn find_entry(&self, identity: &String) -> (r: Option<usize>)
        requires
            self.unique_ids(),
        ensures
            match r {
                Some(i) => i < self.sessions@.len() && self.sessions@[i as int].identity@
                    == identity@ && self.has_entry(identity@) && self.idx_of(identity@) == i,
                None => !self.has_entry(identity@),
            },
    {
        let n = self.sessions.len();
        let mut i: usize = 0;
        while i < n
            invariant
                self.unique_ids(),
                n == self.sessions@.len(),
                i <= n,
                forall|j: int| 0 <= j < i ==> self.sessions@[j].identity@ != identity@,
            decreases n - i,
        {
            if self.sessions[i].identity == *identity {
                proof {
                    self.lemma_idx_unique(identity@, i as int);
                }
                return Some(i);
            }
            i = i + 1;
        }
        None
    }

    /// Records a new session.  Fails the caller's duty, not this function's:
    /// the caller must already have ruled out an existing entry.
    pub fn register(&mut self, s: Session)
        requires
            old(self).unique_ids(),
            !old(self).has_entry(s.identity@),
        ensures
            final(self).sessions@ == old(self).sessions@.push(s),
            final(self).unique_ids(),
            final(self).has_entry(s.identity@),
            final(self).idx_of(s.identity@) == old(self).sessions@.len(),
            final(self).entry_of(s.identity@) == s,
            forall|other: Seq<char>|
                other != s.identity@
                    ==> #[trigger] final(self).has_entry(other) == old(self).has_entry(other),
            forall|other: Seq<char>|
                other != s.identity@ && old(self).has_entry(other)
                    ==> #[trigger] final(self).entry_of(other) == old(self).entry_of(other),
    {
        let ghost pre = *self;
        let ghost id = s.identity@;
        self.sessions.push(s);
        proof {
            let n = pre.sessions@.len() as int;
            assert(self.sessions@[n] == s);
            assert forall|i: int, j: int| 0 <= i < j < self.sessions@.len() implies self.sessions@[i].identity@
                != self.sessions@[j].identity@ by {
                if j < n {
                    assert(pre.sessions@[i].identity@ != pre.sessions@[j].identity@);
                } else {
                    assert(self.sessions@[j] == s);
                    if pre.sessions@[i].identity@ == id {
                        assert(pre.has_entry(id));
                    }
                }
            };
            self.lemma_idx_unique(id, n);
            assert forall|other: Seq<char>| other != id implies #[trigger] self.has_entry(other)
                == pre.has_entry(other) by {
                if self.has_entry(other) {
                    let i = choose|i: int|
                        0 <= i < self.sessions@.len() && self.sessions@[i].identity@ == other;
                    assert(i != n);
                    assert(pre.sessions@[i].identity@ == other);
                }
                if pre.has_entry(other) {
                    let i = choose|i: int|
                        0 <= i < pre.sessions@.len() && pre.sessions@[i].identity@ == other;
                    assert(self.sessions@[i].identity@ == other);
                }
            };
            assert forall|other: Seq<char>| other != id && pre.has_entry(other) implies #[trigger] self.entry_of(
                other,
            ) == pre.entry_of(other) by {
                let i = pre.idx_of(other);
                assert(self.sessions@[i].identity@ == other);
                self.lemma_idx_unique(other, i);
            };
        }
    }
}

} // verus!
