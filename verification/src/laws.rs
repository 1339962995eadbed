//! The library's laws: properties that hold across several operations,
//! stated over the same views and post predicates the operations' own
//! contracts use, and proved here.
use vstd::prelude::*;

use crate::engine::ChatCore;
use crate::engine::delete_post;
use crate::engine::join_post;
use crate::engine::kick_post;
use crate::messages::ServerMsgView;

verus! {

// ---------------------------------------------------------------------------
// Membership is a fold of the operations
// ---------------------------------------------------------------------------

/// One membership mutation on a single room, as the operations' contracts
/// state it: a successful join inserts the identity
/// ([`crate::engine::join_post`]); a successful leave or kick removes it
/// ([`crate::engine::leave_post`], [`crate::engine::kick_post`]).
pub enum MemberOp {
    Joined(Seq<char>),
    Removed(Seq<char>),
}

impl MemberOp {
    pub open spec fn subject(self) -> Seq<char> {
        match self {
            MemberOp::Joined(x) => x,
            MemberOp::Removed(x) => x,
        }
    }
}

/// The member set after a sequence of membership mutations, first to last.
pub open spec fn apply_member_ops(s: Set<Seq<char>>, ops: Seq<MemberOp>) -> Set<Seq<char>>
    decreases ops.len(),
{
    if ops.len() == 0 {
        s
    } else {
        let rest = apply_member_ops(s, ops.drop_last());
        match ops.last() {
            MemberOp::Joined(x) => rest.insert(x),
            MemberOp::Removed(x) => rest.remove(x),
        }
    }
}

/// Whether any operation in the sequence concerns `x`.
pub open spec fn touched(ops: Seq<MemberOp>, x: Seq<char>) -> bool
    decreases ops.len(),
{
    ops.len() > 0 && (ops.last().subject() == x || touched(ops.drop_last(), x))
}

/// Whether the last operation concerning `x` is a join.
pub open spec fn joined_last(ops: Seq<MemberOp>, x: Seq<char>) -> bool
    decreases ops.len(),
{
    if ops.len() == 0 {
        false
    } else if ops.last().subject() == x {
        ops.last() is Joined
    } else {
        joined_last(ops.drop_last(), x)
    }
}

/// For every sequence of join/leave/kick mutations on one room, the final
/// member set holds exactly the identities whose last mutation was a
/// successful join not subsequently removed — no phantom members; and since
/// membership is a set (the registry's member lists are duplicate-free by
/// [`crate::registry::Room::members_unique`]), no duplicates either.  Any
/// interleaving of concurrent operations is such a sequence, because each
/// operation is one atomic step under an exclusive borrow.
pub proof fn lemma_membership_is_fold(s: Set<Seq<char>>, ops: Seq<MemberOp>, x: Seq<char>)
    ensures
        apply_member_ops(s, ops).contains(x) == (if touched(ops, x) {
            joined_last(ops, x)
        } else {
            s.contains(x)
        }),
    decreases ops.len(),
{
    if ops.len() > 0 {
        lemma_membership_is_fold(s, ops.drop_last(), x);
    }
}

/// A successful join performs exactly one [`MemberOp::Joined`] step on the
/// room's member set.
pub proof fn lemma_join_applies_op(pre: ChatCore, post: ChatCore, rid: Seq<char>, x: Seq<char>)
    requires
        join_post(pre, post, rid, x),
    ensures
        post.room_view(rid).members == apply_member_ops(
            pre.room_view(rid).members,
            seq![MemberOp::Joined(x)],
        ),
{
    let ops = seq![MemberOp::Joined(x)];
    assert(ops.drop_last() =~= Seq::<MemberOp>::empty());
    assert(apply_member_ops(pre.room_view(rid).members, ops.drop_last())
        == pre.room_view(rid).members);
    assert(ops.last() == MemberOp::Joined(x));
}

/// A successful leave performs exactly one [`MemberOp::Removed`] step on the
/// room's member set.
pub proof fn lemma_leave_applies_op(pre: ChatCore, post: ChatCore, rid: Seq<char>, x: Seq<char>)
    requires
        crate::engine::leave_post(pre, post, rid, x),
    ensures
        post.room_view(rid).members == apply_member_ops(
            pre.room_view(rid).members,
            seq![MemberOp::Removed(x)],
        ),
{
    let ops = seq![MemberOp::Removed(x)];
    assert(ops.drop_last() =~= Seq::<MemberOp>::empty());
    assert(apply_member_ops(pre.room_view(rid).members, ops.drop_last())
        == pre.room_view(rid).members);
    assert(ops.last() == MemberOp::Removed(x));
}

/// A successful kick performs exactly one [`MemberOp::Removed`] step on the
/// room's member set.
pub proof fn lemma_kick_applies_op(pre: ChatCore, post: ChatCore, rid: Seq<char>, x: Seq<char>)
    requires
        kick_post(pre, post, rid, x),
    ensures
        post.room_view(rid).members == apply_member_ops(
            pre.room_view(rid).members,
            seq![MemberOp::Removed(x)],
        ),
{
    let ops = seq![MemberOp::Removed(x)];
    assert(ops.drop_last() =~= Seq::<MemberOp>::empty());
    assert(apply_member_ops(pre.room_view(rid).members, ops.drop_last())
        == pre.room_view(rid).members);
    assert(ops.last() == MemberOp::Removed(x));
}

// ---------------------------------------------------------------------------
// Fanout is observed in publish order, exactly once
// ---------------------------------------------------------------------------

/// What an active subscription has observed, together with what is still
/// pending, is exactly the room's publish log from its subscription point
/// on: the observed prefix is a contiguous slice of the log — every event in
/// it exactly once, in publish order, none published before the
/// subscription — and the pending queue is precisely the rest of the log.
/// [`crate::engine::ChatCore::recv_event`] moves the head of that rest into
/// the observed prefix, so successive drains yield consecutive log entries;
/// a subscription closed or removed before a publish never holds that event
/// ([`crate::hub::broadcast_post`] touches only active sessions of the
/// room).
pub proof fn lemma_observation_in_publish_order(c: ChatCore, id: Seq<char>)
    requires
        c.wf(),
        c.in_session(id),
    ensures
        ({
            let sv = c.session_view(id);
            let log = c.room_view(sv.room).log;
            &&& sv.start + sv.observed.len() + sv.queue.len() == log.len()
            &&& sv.observed == log.subrange(sv.start as int, sv.start as int + sv.observed.len() as int)
            &&& sv.queue == log.subrange(sv.start as int + sv.observed.len() as int, log.len() as int)
        }),
{
    assert(c.session_synced(id));
    let sv = c.session_view(id);
    let log = c.room_view(sv.room).log;
    let whole = log.subrange(sv.start as int, log.len() as int);
    assert(sv.observed + sv.queue == whole);
    assert(sv.observed =~= whole.subrange(0, sv.observed.len() as int));
    assert(sv.queue =~= whole.subrange(sv.observed.len() as int, whole.len() as int));
    assert(sv.observed =~= log.subrange(sv.start as int, sv.start as int + sv.observed.len() as int));
    assert(sv.queue =~= log.subrange(sv.start as int + sv.observed.len() as int, log.len() as int));
}

/// Any two active subscribers of one room agree on the events they both
/// observe: whatever log position falls inside both observation windows was
/// seen by each as exactly that event, so all subscribers of a room observe
/// its events in the same relative order.  No ordering is claimed across
/// rooms: each room has its own log.
pub proof fn lemma_subscribers_agree(c: ChatCore, a: Seq<char>, b: Seq<char>, i: int)
    requires
        c.wf(),
        c.in_session(a),
        c.in_session(b),
        c.session_view(a).room == c.session_view(b).room,
        c.session_view(a).start <= i < c.session_view(a).start + c.session_view(a).observed.len(),
        c.session_view(b).start <= i < c.session_view(b).start + c.session_view(b).observed.len(),
    ensures
        c.session_view(a).observed[i - c.session_view(a).start] == c.session_view(b).observed[i
            - c.session_view(b).start],
        c.session_view(a).observed[i - c.session_view(a).start] == c.room_view(
            c.session_view(a).room,
        ).log[i],
{
    lemma_observation_in_publish_order(c, a);
    lemma_observation_in_publish_order(c, b);
}

// ---------------------------------------------------------------------------
// Deletion reaches every member, exactly once, and leaves nothing behind
// ---------------------------------------------------------------------------

/// Deleting a room delivers exactly one deletion notice to each of its
/// members — as the last pending event of that member's connection — closes
/// each member's session, and leaves neither the room, nor a membership, nor
/// an active session binding behind.
pub proof fn lemma_delete_notifies_every_member(
    pre: ChatCore,
    post: ChatCore,
    rid: Seq<char>,
    m: Seq<char>,
)
    requires
        pre.wf(),
        delete_post(pre, post, rid),
        pre.is_member(rid, m),
    ensures
        !post.has_room(rid),
        !post.in_session(m),
        post.has_entry(m),
        post.session_view(m).queue.len() > 0,
        post.session_view(m).queue.last() == (ServerMsgView::RoomDeleted { room_id: rid }),
        forall|q: int|
            0 <= q < post.session_view(m).queue.len() - 1 ==> post.session_view(m).queue[q] != (
            ServerMsgView::RoomDeleted { room_id: rid }),
{
    let ev = ServerMsgView::RoomDeleted { room_id: rid };
    assert(pre.registry.is_member(rid, m));
    assert(pre.sessions.in_session(m) && pre.sessions.entry_of(m).room_id@ == rid);
    assert(pre.in_session(m) && pre.session_view(m).room == rid);
    assert(post.session_view(m).queue == pre.session_view(m).queue.push(ev));
    assert(!pre.session_view(m).queue.contains(ev));
    assert forall|q: int| 0 <= q < post.session_view(m).queue.len() - 1 implies post.session_view(
        m,
    ).queue[q] != ev by {
        assert(post.session_view(m).queue[q] == pre.session_view(m).queue[q]);
        if pre.session_view(m).queue[q] == ev {
            assert(pre.session_view(m).queue.contains(ev));
        }
    }
}

/// After a deletion, the room is gone: a join that serializes after it finds
/// no room, so [`crate::engine::ChatCore::join_room`]'s contract forces the
/// not-found error.  Together with [`lemma_delete_notifies_every_member`]
/// this covers both serialization orders of a racing join and delete: either
/// the join fails, or the joiner is a member whom the deletion notifies and
/// unbinds — never a member of a room that no longer exists.
pub proof fn lemma_delete_then_join_fails(pre: ChatCore, post: ChatCore, rid: Seq<char>)
    requires
        delete_post(pre, post, rid),
    ensures
        !post.has_room(rid),
{
}

/// A join that serializes before a deletion of the same room leaves the
/// joiner exactly where [`lemma_delete_notifies_every_member`] puts every
/// member: notified once and unbound.
pub proof fn lemma_join_then_delete_notifies(
    s0: ChatCore,
    s1: ChatCore,
    s2: ChatCore,
    rid: Seq<char>,
    x: Seq<char>,
)
    requires
        s1.wf(),
        join_post(s0, s1, rid, x),
        delete_post(s1, s2, rid),
    ensures
        !s2.has_room(rid),
        !s2.in_session(x),
        s2.has_entry(x),
        s2.session_view(x).queue.len() > 0,
        s2.session_view(x).queue.last() == (ServerMsgView::RoomDeleted { room_id: rid }),
{
    assert(s1.in_session(x) && s1.session_view(x).room == rid);
    assert(s1.registry.is_member(rid, x)) by {
        assert(s1.sessions.in_session(x));
    }
    lemma_delete_notifies_every_member(s1, s2, rid, x);
}

// ---------------------------------------------------------------------------
// A kick removes, notifies, and silences the target
// ---------------------------------------------------------------------------

/// Kicking a member removes it from the membership, delivers the kick notice
/// to every current member — the target included, as the last pending event
/// of its connection — and closes the target's session, so a subsequent send
/// from the target to that room fails the membership check of
/// [`crate::engine::ChatCore::send_chat`] and is rejected as a protocol
/// error.
pub proof fn lemma_kick_silences_target(
    pre: ChatCore,
    post: ChatCore,
    rid: Seq<char>,
    target: Seq<char>,
)
    requires
        pre.wf(),
        kick_post(pre, post, rid, target),
        pre.is_member(rid, target),
    ensures
        !post.room_view(rid).members.contains(target),
        !post.in_session(target),
        post.session_view(target).queue.len() > 0,
        post.session_view(target).queue.last() == (ServerMsgView::UserKicked {
            room_id: rid,
            user_id: target,
        }),
        !(post.in_session(target) && post.session_view(target).room == rid),
{
    assert(pre.sessions.in_session(target) && pre.sessions.entry_of(target).room_id@ == rid);
    assert(pre.in_session(target) && pre.session_view(target).room == rid);
    assert(post.room_view(rid).members == pre.room_view(rid).members.remove(target));
}

} // verus!
