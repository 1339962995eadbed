//! Room registry: the authoritative table of rooms and their membership.
//!
//! A [`Room`] couples the room's identity and credential with its current
//! member list and the ghost log of every event published to the room's
//! fanout channel, in publish order.  The registry keeps room ids unique and
//! member lists duplicate-free; every mutation of membership goes through the
//! contracted operations here or through the composed operations of the core.
use vstd::prelude::*;

use crate::messages::ServerMsgView;

verus! {

/// The set of identities named by a member list.
pub open spec fn name_set(ms: Seq<String>) -> Set<Seq<char>> {
    ms.map_values(|m: String| m@).to_set()
}

/// An identity occurs in a member list exactly when the list holds an entry
/// with its characters.
pub proof fn lemma_name_set_contains(ms: Seq<String>, id: Seq<char>)
    ensures
        name_set(ms).contains(id) <==> exists|k: int| 0 <= k < ms.len() && ms[k]@ == id,
{
    let names = ms.map_values(|m: String| m@);
    if name_set(ms).contains(id) {
        let k = choose|k: int| 0 <= k < names.len() && names[k] == id;
        assert(ms[k]@ == id);
    }
    if exists|k: int| 0 <= k < ms.len() && ms[k]@ == id {
        let k = choose|k: int| 0 <= k < ms.len() && ms[k]@ == id;
        assert(names[k] == id);
        assert(names.contains(id));
    }
}

/// Appending a fresh identity to a member list inserts it into the name set.
pub proof fn lemma_name_set_push(ms: Seq<String>, id: String)
    ensures
        name_set(ms.push(id)) == name_set(ms).insert(id@),
{
    let pre = name_set(ms);
    let post = name_set(ms.push(id));
    assert forall|x: Seq<char>| post.contains(x) implies pre.insert(id@).contains(x) by {
        lemma_name_set_contains(ms.push(id), x);
        let k = choose|k: int| 0 <= k < ms.push(id).len() && ms.push(id)[k]@ == x;
        if k < ms.len() {
            lemma_name_set_contains(ms, x);
        }
    };
    assert forall|x: Seq<char>| pre.insert(id@).contains(x) implies post.contains(x) by {
        if x == id@ {
            assert(ms.push(id)[ms.len() as int]@ == x);
        } else {
            lemma_name_set_contains(ms, x);
            let k = choose|k: int| 0 <= k < ms.len() && ms[k]@ == x;
            assert(ms.push(id)[k]@ == x);
        }
        lemma_name_set_contains(ms.push(id), x);
    };
    assert(post =~= pre.insert(id@));
}

/// Removing position `k` from a duplicate-free member list removes exactly
/// that identity from the name set.
pub proof fn lemma_name_set_remove(ms: Seq<String>, k: int)
    requires
        0 <= k < ms.len(),
        forall|i: int, j: int| 0 <= i < j < ms.len() ==> ms[i]@ != ms[j]@,
    ensures
        name_set(ms.remove(k)) == name_set(ms).remove(ms[k]@),
{
    let shorter = ms.remove(k);
    let pre = name_set(ms);
    let post = name_set(shorter);
    assert forall|x: Seq<char>| post.contains(x) implies pre.remove(ms[k]@).contains(x) by {
        lemma_name_set_contains(shorter, x);
        let j = choose|j: int| 0 <= j < shorter.len() && shorter[j]@ == x;
        let orig = if j < k { j } else { j + 1 };
        assert(ms[orig]@ == x);
        lemma_name_set_contains(ms, x);
        assert(x != ms[k]@);
    };
    assert forall|x: Seq<char>| pre.remove(ms[k]@).contains(x) implies post.contains(x) by {
        lemma_name_set_contains(ms, x);
        let j = choose|j: int| 0 <= j < ms.len() && ms[j]@ == x;
        assert(j != k);
        let moved = if j < k { j } else { j - 1 };
        assert(shorter[moved]@ == x);
        lemma_name_set_contains(shorter, x);
    };
    assert(post =~= pre.remove(ms[k]@));
}

/// One room: identity and credential, owner, the current member list, and the
/// ghost log of everything published to the room's fanout channel.
pub struct Room {
    pub room_id: String,
    pub room_password: String,
    pub owner: String,
    pub members: Vec<String>,
    /// Every event published to this room, oldest first.  Ghost: the fanout
    /// order is part of the specification, not of the run-time state.
    pub log: Ghost<Seq<ServerMsgView>>,
}

impl Room {
    /// A member list never holds the same identity twice.
    pub open spec fn members_unique(self) -> bool {
        forall|i: int, j: int|
            0 <= i < j < self.members@.len() ==> self.members@[i]@ != self.members@[j]@
    }

    pub open spec fn spec_has_member(self, id: Seq<char>) -> bool {
        exists|k: int| 0 <= k < self.members@.len() && self.members@[k]@ == id
    }

    /// The membership as a set of identities.
    pub open spec fn member_set(self) -> Set<Seq<char>> {
        name_set(self.members@)
    }

    /// A live room's log never carries the room's own deletion notice: that
    /// event is appended to member queues only when the room is removed.
    pub open spec fn log_clean(self) -> bool {
        forall|e: int|
            0 <= e < self.log@.len() ==> self.log@[e] != (ServerMsgView::RoomDeleted {
                room_id: self.room_id@,
            })
    }

    pub open spec fn wf(self) -> bool {
        self.members_unique() && self.log_clean()
    }

    /// Index of `id` in the member list, if present.
    pub fn member_index(&self, id: &String) -> (r: Option<usize>)
        ensures
            match r {
                Some(k) => k < self.members@.len() && self.members@[k as int]@ == id@
                    && self.spec_has_member(id@),
                None => !self.spec_has_member(id@),
            },
    {
        let n = self.members.len();
        let mut k: usize = 0;
        while k < n
            invariant
                n == self.members@.len(),
                k <= n,
                forall|j: int| 0 <= j < k ==> self.members@[j]@ != id@,
            decreases n - k,
        {
            if self.members[k] == *id {
                return Some(k);
            }
            k = k + 1;
        }
        None
    }
}

/// The table of all live rooms; room ids are unique.
pub struct RoomRegistry {
    pub rooms: Vec<Room>,
}

impl RoomRegistry {
    pub open spec fn unique_ids(self) -> bool {
        forall|i: int, j: int|
            0 <= i < j < self.rooms@.len() ==> self.rooms@[i].room_id@ != self.rooms@[j].room_id@
    }

    pub open spec fn wf(self) -> bool {
        self.unique_ids() && forall|i: int| 0 <= i < self.rooms@.len() ==> (
        #[trigger] self.rooms@[i]).wf()
    }

    pub open spec fn has_room(self, rid: Seq<char>) -> bool {
        exists|i: int| 0 <= i < self.rooms@.len() && self.rooms@[i].room_id@ == rid
    }

    /// Index of the room named `rid`; meaningful only when `has_room(rid)`.
    pub open spec fn idx_of(self, rid: Seq<char>) -> int {
        choose|i: int| 0 <= i < self.rooms@.len() && self.rooms@[i].room_id@ == rid
    }

    pub open spec fn room_of(self, rid: Seq<char>) -> Room {
        self.rooms@[self.idx_of(rid)]
    }

    pub open spec fn members_of(self, rid: Seq<char>) -> Set<Seq<char>> {
        self.room_of(rid).member_set()
    }

    pub open spec fn owner_of(self, rid: Seq<char>) -> Seq<char> {
        self.room_of(rid).owner@
    }

    pub open spec fn password_of(self, rid: Seq<char>) -> Seq<char> {
        self.room_of(rid).room_password@
    }

    /// The room's publish log, oldest event first.
    pub open spec fn log_of(self, rid: Seq<char>) -> Seq<ServerMsgView> {
        self.room_of(rid).log@
    }

    pub open spec fn is_member(self, rid: Seq<char>, id: Seq<char>) -> bool {
        self.has_room(rid) && self.room_of(rid).spec_has_member(id)
    }

    /// Under unique ids, any index holding `rid` is the index `idx_of` names.
    pub proof fn lemma_idx_unique(self, rid: Seq<char>, i: int)
        requires
            self.unique_ids(),
            0 <= i < self.rooms@.len(),
            self.rooms@[i].room_id@ == rid,
        ensures
            self.idx_of(rid) == i,
            self.has_room(rid),
    {
        let c = self.idx_of(rid);
        assert(0 <= c < self.rooms@.len() && self.rooms@[c].room_id@ == rid);
        if c != i {
            if c < i {
                assert(self.rooms@[c].room_id@ != self.rooms@[i].room_id@);
            } else {
                assert(self.rooms@[i].room_id@ != self.rooms@[c].room_id@);
            }
        }
    }

    /// Two registries whose rooms carry the same ids at the same positions
    /// agree on which rooms exist and where they sit.
    pub proof fn lemma_same_keys(self, other: RoomRegistry)
        requires
            self.unique_ids(),
            other.rooms@.len() == self.rooms@.len(),
            forall|t: int|
                0 <= t < self.rooms@.len() ==> (#[trigger] other.rooms@[t]).room_id@
                    == self.rooms@[t].room_id@,
        ensures
            other.unique_ids(),
            forall|r: Seq<char>| #[trigger] other.has_room(r) == self.has_room(r),
            forall|r: Seq<char>|
                self.has_room(r) ==> #[trigger] other.idx_of(r) == self.idx_of(r),
    {
        assert forall|r: Seq<char>| #[trigger] other.has_room(r) == self.has_room(r) by {
            if self.has_room(r) {
                let t = self.idx_of(r);
                assert(other.rooms@[t].room_id@ == r);
            }
            if other.has_room(r) {
                let t = choose|t: int|
                    0 <= t < other.rooms@.len() && other.rooms@[t].room_id@ == r;
                assert(self.rooms@[t].room_id@ == r);
            }
        };
        assert forall|r: Seq<char>| self.has_room(r) implies #[trigger] other.idx_of(r)
            == self.idx_of(r) by {
            assert(other.has_room(r));
            let t2 = other.idx_of(r);
            assert(0 <= t2 < other.rooms@.len() && other.rooms@[t2].room_id@ == r);
            assert(self.rooms@[t2].room_id@ == r);
            self.lemma_idx_unique(r, t2);
        };
    }

    /// Replacing the room at `i` without renaming it leaves every other room,
    /// and the table's key structure, untouched.
    pub proof fn lemma_update_room(self, post: RoomRegistry, i: int)
        requires
            self.unique_ids(),
            0 <= i < self.rooms@.len(),
            post.rooms@.len() == self.rooms@.len(),
            forall|t: int|
                0 <= t < self.rooms@.len() && t != i ==> #[trigger] post.rooms@[t]
                    == self.rooms@[t],
            post.rooms@[i].room_id@ == self.rooms@[i].room_id@,
        ensures
            post.unique_ids(),
            forall|r: Seq<char>| #[trigger] post.has_room(r) == self.has_room(r),
            self.idx_of(self.rooms@[i].room_id@) == i,
            post.idx_of(self.rooms@[i].room_id@) == i,
            forall|r: Seq<char>|
                r != self.rooms@[i].room_id@ && self.has_room(r) ==> #[trigger] post.room_of(r)
                    == self.room_of(r),
    {
        let rid = self.rooms@[i].room_id@;
        assert forall|t: int| 0 <= t < self.rooms@.len() implies (
        #[trigger] post.rooms@[t]).room_id@ == self.rooms@[t].room_id@ by {}
        self.lemma_same_keys(post);
        self.lemma_idx_unique(rid, i);
        post.lemma_idx_unique(rid, i);
        assert forall|r: Seq<char>| r != rid && self.has_room(r) implies #[trigger] post.room_of(r)
            == self.room_of(r) by {
            let t = self.idx_of(r);
            assert(t != i);
            assert(post.rooms@[t] == self.rooms@[t]);
        }
    }

    /// Removing the room at `i` leaves every other room reachable and
    /// unchanged.
    pub proof fn lemma_remove_room(self, post: RoomRegistry, i: int)
        requires
            self.unique_ids(),
            0 <= i < self.rooms@.len(),
            post.rooms@ == self.rooms@.remove(i),
        ensures
            post.unique_ids(),
            !post.has_room(self.rooms@[i].room_id@),
            forall|r: Seq<char>|
                r != self.rooms@[i].room_id@ ==> #[trigger] post.has_room(r) == self.has_room(r),
            forall|r: Seq<char>|
                r != self.rooms@[i].room_id@ && self.has_room(r) ==> #[trigger] post.room_of(r)
                    == self.room_of(r),
    {
        let rid = self.rooms@[i].room_id@;
        self.lemma_idx_unique(rid, i);
        assert forall|a: int, b: int| 0 <= a < b < post.rooms@.len() implies post.rooms@[a].room_id@
            != post.rooms@[b].room_id@ by {
            let oa = if a < i { a } else { a + 1 };
            let ob = if b < i { b } else { b + 1 };
            assert(post.rooms@[a] == self.rooms@[oa]);
            assert(post.rooms@[b] == self.rooms@[ob]);
        }
        if post.has_room(rid) {
            let t = choose|t: int| 0 <= t < post.rooms@.len() && post.rooms@[t].room_id@ == rid;
            let ot = if t < i { t } else { t + 1 };
            assert(post.rooms@[t] == self.rooms@[ot]);
            assert(ot != i);
            self.lemma_idx_unique(rid, ot);
            assert(false);
        }
        assert forall|r: Seq<char>| r != rid implies #[trigger] post.has_room(r) == self.has_room(
            r,
        ) by {
            if self.has_room(r) {
                let t = self.idx_of(r);
                assert(t != i);
                let nt = if t < i { t } else { t - 1 };
                assert(post.rooms@[nt] == self.rooms@[t]);
            }
            if post.has_room(r) {
                let t = choose|t: int| 0 <= t < post.rooms@.len() && post.rooms@[t].room_id@ == r;
                let ot = if t < i { t } else { t + 1 };
                assert(post.rooms@[t] == self.rooms@[ot]);
            }
        }
        assert forall|r: Seq<char>| r != rid && self.has_room(r) implies #[trigger] post.room_of(r)
            == self.room_of(r) by {
            let t = self.idx_of(r);
            assert(t != i);
            let nt = if t < i { t } else { t - 1 };
            assert(post.rooms@[nt] == self.rooms@[t]);
            post.lemma_idx_unique(r, nt);
        }
    }

    /// Appending a room with a fresh id leaves every existing room untouched.
    pub proof fn lemma_push_room(self, post: RoomRegistry, room: Room)
        requires
            self.unique_ids(),
            !self.has_room(room.room_id@),
            post.rooms@ == self.rooms@.push(room),
        ensures
            post.unique_ids(),
            post.has_room(room.room_id@),
            post.idx_of(room.room_id@) == self.rooms@.len(),
            post.room_of(room.room_id@) == room,
            forall|r: Seq<char>|
                r != room.room_id@ ==> #[trigger] post.has_room(r) == self.has_room(r),
            forall|r: Seq<char>|
                r != room.room_id@ && self.has_room(r) ==> #[trigger] post.room_of(r)
                    == self.room_of(r),
    {
        let rid = room.room_id@;
        let n = self.rooms@.len() as int;
        assert(post.rooms@[n] == room);
        assert forall|a: int, b: int| 0 <= a < b < post.rooms@.len() implies post.rooms@[a].room_id@
            != post.rooms@[b].room_id@ by {
            if b < n {
                assert(post.rooms@[a] == self.rooms@[a] && post.rooms@[b] == self.rooms@[b]);
            } else {
                assert(post.rooms@[a] == self.rooms@[a]);
                if self.rooms@[a].room_id@ == rid {
                    assert(self.has_room(rid));
                }
            }
        }
        post.lemma_idx_unique(rid, n);
        assert forall|r: Seq<char>| r != rid implies #[trigger] post.has_room(r) == self.has_room(
            r,
        ) by {
            if self.has_room(r) {
                let t = self.idx_of(r);
                assert(post.rooms@[t].room_id@ == r);
            }
            if post.has_room(r) {
                let t = choose|t: int| 0 <= t < post.rooms@.len() && post.rooms@[t].room_id@ == r;
                assert(t != n);
                assert(self.rooms@[t].room_id@ == r);
            }
        }
        assert forall|r: Seq<char>| r != rid && self.has_room(r) implies #[trigger] post.room_of(r)
            == self.room_of(r) by {
            let t = self.idx_of(r);
            assert(post.rooms@[t] == self.rooms@[t]);
            post.lemma_idx_unique(r, t);
        }
    }

    /// Index of the room named `room_id`, if present.
    pub fn find_room(&self, room_id: &String) -> (r: Option<usize>)
        requires
            self.unique_ids(),
        ensures
            match r {
                Some(i) => i < self.rooms@.len() && self.rooms@[i as int].room_id@ == room_id@
                    && self.has_room(room_id@) && self.idx_of(room_id@) == i,
                None => !self.has_room(room_id@),
            },
    {
        let n = self.rooms.len();
        let mut i: usize = 0;
        while i < n
            invariant
                self.unique_ids(),
                n == self.rooms@.len(),
                i <= n,
                forall|j: int| 0 <= j < i ==> self.rooms@[j].room_id@ != room_id@,
            decreases n - i,
        {
            if self.rooms[i].room_id == *room_id {
                proof {
                    self.lemma_idx_unique(room_id@, i as int);
                }
                return Some(i);
            }
            i = i + 1;
        }
        None
    }
}

} // verus!
