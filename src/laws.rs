use vstd::prelude::*;
use crate::display::{displayed_invited_spec, displayed_joined_spec};
use crate::reconciler::{
    add_effects, batch, min_nat, remove_effects, update_effects, EffectSpec, RoomDiff,
};
use crate::room::RoomState;
use crate::rooms_list::{refresh, RoomsListView};
use crate::snapshot::RoomSnapshot;

verus! {

/// The length of the mirror after one diff, from its length `n` before.
pub open spec fn diff_len(n: nat, d: RoomDiff) -> nat {
    match d {
        RoomDiff::Append { values } => n + values@.len(),
        RoomDiff::Clear => 0,
        RoomDiff::PushFront { .. } | RoomDiff::PushBack { .. } | RoomDiff::Insert { .. } => n + 1,
        RoomDiff::SetValue { .. } => n,
        RoomDiff::PopFront | RoomDiff::PopBack | RoomDiff::Remove { .. } => if n > 0 {
            (n - 1) as nat
        } else {
            0
        },
        RoomDiff::Truncate { length } => min_nat(length as nat, n),
        RoomDiff::Reset { values } => values@.len(),
    }
}

/// A diff is valid against a collection of length `n` when its index is in bounds and
/// it does not pop from an empty collection.
pub open spec fn diff_valid(n: nat, d: RoomDiff) -> bool {
    match d {
        RoomDiff::Insert { index, .. } => index <= n,
        RoomDiff::SetValue { index, .. } | RoomDiff::Remove { index } => index < n,
        RoomDiff::PopFront | RoomDiff::PopBack => n > 0,
        _ => true,
    }
}

pub open spec fn diffs_valid(n: nat, ds: Seq<RoomDiff>) -> bool
    decreases ds.len(),
{
    ds.len() == 0 || (diff_valid(n, ds[0]) && diffs_valid(diff_len(n, ds[0]), ds.drop_first()))
}

/// The length of the collection after the diffs: what they add minus what they remove.
pub open spec fn expected_len(n: nat, ds: Seq<RoomDiff>) -> nat
    decreases ds.len(),
{
    if ds.len() == 0 {
        n
    } else {
        expected_len(diff_len(n, ds[0]), ds.drop_first())
    }
}

/// Law: after a batch of valid diffs, the mirror is exactly as long as the server's
/// collection: its former length plus the rooms appended, pushed, inserted or reset,
/// minus those popped, removed, truncated or cleared.
pub proof fn lemma_mirror_length(m: Seq<RoomSnapshot>, ds: Seq<RoomDiff>)
    requires
        diffs_valid(m.len(), ds),
    ensures
        batch(m, ds).0.len() == expected_len(m.len(), ds),
    decreases ds.len(),
{
    if ds.len() > 0 {
        let rest = ds.drop_first();
        match ds[0] {
            RoomDiff::Append { values } => {
                lemma_mirror_length(m + values@, rest);
            },
            RoomDiff::Clear => {
                lemma_mirror_length(Seq::empty(), rest);
            },
            RoomDiff::PushFront { value } => {
                lemma_mirror_length(seq![value] + m, rest);
            },
            RoomDiff::PushBack { value } => {
                lemma_mirror_length(m.push(value), rest);
            },
            RoomDiff::Insert { index, value } => {
                lemma_mirror_length(m.insert(index as int, value), rest);
            },
            RoomDiff::SetValue { index, value } => {
                lemma_mirror_length(m.update(index as int, value), rest);
            },
            RoomDiff::Truncate { length } => {
                lemma_mirror_length(m.subrange(0, min_nat(length as nat, m.len()) as int), rest);
            },
            RoomDiff::Reset { values } => {
                lemma_mirror_length(values@, rest);
            },
            RoomDiff::PopFront | RoomDiff::PopBack | RoomDiff::Remove { .. } => {
                let i: int = match ds[0] {
                    RoomDiff::PopFront => 0,
                    RoomDiff::PopBack => m.len() - 1,
                    RoomDiff::Remove { index } => index as int,
                    _ => 0,
                };
                let room = m[i];
                let m1 = m.remove(i);
                if rest.len() > 0 && crate::reconciler::reinsertion(m1, room, rest[0]) is Some {
                    let (m2, v) = crate::reconciler::reinsertion(m1, room, rest[0]).unwrap();
                    assert(m2.len() == m.len());
                    assert(diff_len(m.len(), ds[0]) == m1.len());
                    assert(diffs_valid(m1.len(), rest));
                    assert(diff_len(m1.len(), rest[0]) == m.len());
                    assert(diffs_valid(m.len(), rest.drop_first()));
                    assert(expected_len(m.len(), ds) == expected_len(m1.len(), rest));
                    assert(expected_len(m1.len(), rest) == expected_len(m.len(), rest.drop_first()));
                    lemma_mirror_length(m2, rest.drop_first());
                } else {
                    assert(diff_len(m.len(), ds[0]) == m1.len());
                    lemma_mirror_length(m1, rest);
                }
            },
        }
    }
}

/// Whether an effect tears down or creates a live session.
pub open spec fn touches_session(e: EffectSpec) -> bool {
    e is TearDownSession || e is CreateJoinedSession
}

proof fn lemma_batch_pair(m: Seq<RoomSnapshot>, i: usize, v: RoomSnapshot)
    requires
        i < m.len(),
        m[i as int].room_id@ == v.room_id@,
    ensures
        batch(m, seq![RoomDiff::Remove { index: i }, RoomDiff::Insert { index: i, value: v }])
            == (m.remove(i as int).insert(i as int, v), update_effects(m[i as int], v)),
{
    let ds = seq![RoomDiff::Remove { index: i }, RoomDiff::Insert { index: i, value: v }];
    let two = seq![RoomDiff::Insert { index: i, value: v }];
    let m1 = m.remove(i as int);
    let m2 = m1.insert(i as int, v);
    let e0 = Seq::<RoomDiff>::empty();
    assert(ds.drop_first() =~= two);
    assert(two.drop_first() =~= e0);
    assert(crate::reconciler::reinsertion(m1, m[i as int], two[0]) == Some((m2, v)));
    assert(batch(m2, e0) == (m2, Seq::<EffectSpec>::empty()));
    assert(update_effects(m[i as int], v) + Seq::<EffectSpec>::empty() =~= update_effects(m[i as int], v));
}

proof fn lemma_batch_remove(m: Seq<RoomSnapshot>, i: usize)
    requires
        i < m.len(),
    ensures
        batch(m, seq![RoomDiff::Remove { index: i }]) == (m.remove(i as int), remove_effects(m[i as int])),
{
    let one = seq![RoomDiff::Remove { index: i }];
    let e0 = Seq::<RoomDiff>::empty();
    assert(one.drop_first() =~= e0);
    assert(batch(m.remove(i as int), e0) == (m.remove(i as int), Seq::<EffectSpec>::empty()));
    assert(remove_effects(m[i as int]) + Seq::<EffectSpec>::empty() =~= remove_effects(m[i as int]));
}

proof fn lemma_batch_insert(m: Seq<RoomSnapshot>, i: usize, v: RoomSnapshot)
    requires
        i <= m.len(),
    ensures
        batch(m, seq![RoomDiff::Insert { index: i, value: v }]) == (m.insert(i as int, v), add_effects(v)),
{
    let one = seq![RoomDiff::Insert { index: i, value: v }];
    let e0 = Seq::<RoomDiff>::empty();
    assert(one.drop_first() =~= e0);
    assert(batch(m.insert(i as int, v), e0) == (m.insert(i as int, v), Seq::<EffectSpec>::empty()));
    assert(add_effects(v) + Seq::<EffectSpec>::empty() =~= add_effects(v));
}

proof fn lemma_update_keeps_sessions(p: RoomSnapshot, v: RoomSnapshot)
    requires
        p.room_id@ == v.room_id@,
        p.state == RoomState::Joined,
        v.state == RoomState::Joined,
    ensures
        forall|k: int| 0 <= k < update_effects(p, v).len() ==> !touches_session(#[trigger] update_effects(p, v)[k]),
{
    let e = update_effects(p, v);
    let c = crate::reconciler::common_effects(p, v);
    let j = crate::reconciler::joined_effects(p, v);
    assert(e == c + j);
    assert forall|k: int| 0 <= k < e.len() implies !touches_session(#[trigger] e[k]) by {
        if k < c.len() {
            assert(e[k] == c[k]);
        } else {
            assert(e[k] == j[k - c.len()]);
        }
    }
}

/// Law: removing a room and at once inserting a newer snapshot of it at the same
/// position is one update. The mirror ends as when the two diffs come in separate
/// batches; but where separate batches tear the joined room's session down and create a
/// new one, the pair keeps the session: none of its effects touches a session.
pub proof fn lemma_remove_insert_is_update(m: Seq<RoomSnapshot>, i: usize, v: RoomSnapshot)
    requires
        i < m.len(),
        m[i as int].room_id@ == v.room_id@,
    ensures
        ({
            let paired = batch(m, seq![RoomDiff::Remove { index: i }, RoomDiff::Insert { index: i, value: v }]);
            let first = batch(m, seq![RoomDiff::Remove { index: i }]);
            let second = batch(first.0, seq![RoomDiff::Insert { index: i, value: v }]);
            &&& paired.0 == second.0
            &&& paired.1 == update_effects(m[i as int], v)
            &&& first.1 + second.1 == remove_effects(m[i as int]) + add_effects(v)
            &&& (m[i as int].state == RoomState::Joined && v.state == RoomState::Joined) ==> {
                &&& forall|k: int| 0 <= k < paired.1.len() ==> !touches_session(#[trigger] paired.1[k])
                &&& (first.1 + second.1)[0] == EffectSpec::TearDownSession(v.room_id@)
                &&& (first.1 + second.1)[2] == EffectSpec::CreateJoinedSession(v)
            }
        }),
{
    lemma_batch_pair(m, i, v);
    lemma_batch_remove(m, i);
    lemma_batch_insert(m.remove(i as int), i, v);
    if m[i as int].state == RoomState::Joined && v.state == RoomState::Joined {
        lemma_update_keeps_sessions(m[i as int], v);
    }
}


proof fn lemma_batch_pop_push(m: Seq<RoomSnapshot>, front: bool, v: RoomSnapshot)
    requires
        m.len() > 0,
        (if front { m[0] } else { m.last() }).room_id@ == v.room_id@,
    ensures
        ({
            let i: int = if front { 0 } else { m.len() - 1 };
            let pop = if front { RoomDiff::PopFront } else { RoomDiff::PopBack };
            let push = if front { RoomDiff::PushFront { value: v } } else { RoomDiff::PushBack { value: v } };
            let m1 = m.remove(i);
            let m2 = if front { seq![v] + m1 } else { m1.push(v) };
            &&& batch(m, seq![pop, push]) == (m2, update_effects(m[i], v))
            &&& batch(m, seq![pop]) == (m1, remove_effects(m[i]))
            &&& batch(m1, seq![push]) == (m2, add_effects(v))
        }),
{
    let i: int = if front { 0 } else { m.len() - 1 };
    let pop = if front { RoomDiff::PopFront } else { RoomDiff::PopBack };
    let push = if front { RoomDiff::PushFront { value: v } } else { RoomDiff::PushBack { value: v } };
    let m1 = m.remove(i);
    let m2 = if front { seq![v] + m1 } else { m1.push(v) };
    let e0 = Seq::<RoomDiff>::empty();
    let ds = seq![pop, push];
    assert(ds.drop_first() =~= seq![push]);
    assert(seq![push].drop_first() =~= e0);
    assert(seq![pop].drop_first() =~= e0);
    assert(crate::reconciler::reinsertion(m1, m[i], push) == Some((m2, v)));
    assert(batch(m2, e0) == (m2, Seq::<EffectSpec>::empty()));
    assert(batch(m1, e0) == (m1, Seq::<EffectSpec>::empty()));
    assert(update_effects(m[i], v) + Seq::<EffectSpec>::empty() =~= update_effects(m[i], v));
    assert(remove_effects(m[i]) + Seq::<EffectSpec>::empty() =~= remove_effects(m[i]));
    assert(add_effects(v) + Seq::<EffectSpec>::empty() =~= add_effects(v));
}

/// Law: popping a room off one end of the collection and at once pushing a newer snapshot
/// of it onto the same end is one update, as for a removal followed by an insertion. The
/// mirror ends as when the two diffs come in separate batches; the pair keeps a joined
/// room's session, where separate batches tear it down and create a new one.
pub proof fn lemma_pop_push_is_update(m: Seq<RoomSnapshot>, front: bool, v: RoomSnapshot)
    requires
        m.len() > 0,
        (if front { m[0] } else { m.last() }).room_id@ == v.room_id@,
    ensures
        ({
            let i: int = if front { 0 } else { m.len() - 1 };
            let pop = if front { RoomDiff::PopFront } else { RoomDiff::PopBack };
            let push = if front { RoomDiff::PushFront { value: v } } else { RoomDiff::PushBack { value: v } };
            let paired = batch(m, seq![pop, push]);
            let first = batch(m, seq![pop]);
            let second = batch(first.0, seq![push]);
            &&& paired.0 == second.0
            &&& paired.1 == update_effects(m[i], v)
            &&& first.1 + second.1 == remove_effects(m[i]) + add_effects(v)
            &&& (m[i].state == RoomState::Joined && v.state == RoomState::Joined) ==> {
                &&& forall|k: int| 0 <= k < paired.1.len() ==> !touches_session(#[trigger] paired.1[k])
                &&& (first.1 + second.1)[0] == EffectSpec::TearDownSession(v.room_id@)
                &&& (first.1 + second.1)[2] == EffectSpec::CreateJoinedSession(v)
            }
        }),
{
    lemma_batch_pop_push(m, front, v);
    let i: int = if front { 0 } else { m.len() - 1 };
    if m[i].state == RoomState::Joined && v.state == RoomState::Joined {
        lemma_update_keeps_sessions(m[i], v);
    }
}

/// Law: the display filter is deterministic and has no hidden state: recomputing the
/// display lists of an unchanged store a second time gives the same lists and status.
pub proof fn lemma_filter_idempotent(v: RoomsListView)
    ensures
        refresh(refresh(v)) == refresh(v),
{
    let r = refresh(v);
    assert(r.invited == v.invited && r.joined == v.joined && r.keywords == v.keywords);
    assert(refresh(r).displayed_invited == r.displayed_invited);
    assert(refresh(r).displayed_direct == r.displayed_direct);
    assert(refresh(r).displayed_regular == r.displayed_regular);
}

/// Whether an effect announces a room (+1), withdraws it (-1), or neither, for `id`.
pub open spec fn lifecycle_delta(e: EffectSpec, id: Seq<char>) -> int {
    match e {
        EffectSpec::CreateJoinedSession(s) => if s.room_id@ == id { 1 } else { 0 },
        EffectSpec::AddInvited(s) => if s.room_id@ == id { 1 } else { 0 },
        EffectSpec::RemoveRoom(r, _) => if r == id { -1 } else { 0 },
        _ => 0,
    }
}

/// The number of announcements minus the number of withdrawals of `id` in the effects.
pub open spec fn lifecycle_balance(es: Seq<EffectSpec>, id: Seq<char>) -> int
    decreases es.len(),
{
    if es.len() == 0 {
        0
    } else {
        lifecycle_balance(es.drop_last(), id) + lifecycle_delta(es.last(), id)
    }
}

/// How many entries of the mirror carry `id`.
pub open spec fn count_id(m: Seq<RoomSnapshot>, id: Seq<char>) -> int
    decreases m.len(),
{
    if m.len() == 0 {
        0
    } else {
        count_id(m.drop_last(), id) + if m.last().room_id@ == id { 1int } else { 0int }
    }
}

pub open spec fn all_joined(m: Seq<RoomSnapshot>) -> bool {
    forall|k: int| 0 <= k < m.len() ==> (#[trigger] m[k]).state == RoomState::Joined
}

/// Every snapshot that the diffs carry is of a joined room.
pub open spec fn diffs_all_joined(ds: Seq<RoomDiff>) -> bool {
    forall|k: int| 0 <= k < ds.len() ==> match #[trigger] ds[k] {
        RoomDiff::Append { values } => all_joined(values@),
        RoomDiff::Reset { values } => all_joined(values@),
        RoomDiff::PushFront { value } => value.state == RoomState::Joined,
        RoomDiff::PushBack { value } => value.state == RoomState::Joined,
        RoomDiff::Insert { value, .. } => value.state == RoomState::Joined,
        RoomDiff::SetValue { value, .. } => value.state == RoomState::Joined,
        _ => true,
    }
}

proof fn lemma_balance_concat(a: Seq<EffectSpec>, b: Seq<EffectSpec>, id: Seq<char>)
    ensures
        lifecycle_balance(a + b, id) == lifecycle_balance(a, id) + lifecycle_balance(b, id),
    decreases b.len(),
{
    if b.len() == 0 {
        assert(a + b =~= a);
    } else {
        assert((a + b).drop_last() =~= a + b.drop_last());
        lemma_balance_concat(a, b.drop_last(), id);
    }
}

proof fn lemma_count_concat(a: Seq<RoomSnapshot>, b: Seq<RoomSnapshot>, id: Seq<char>)
    ensures
        count_id(a + b, id) == count_id(a, id) + count_id(b, id),
    decreases b.len(),
{
    if b.len() == 0 {
        assert(a + b =~= a);
    } else {
        assert((a + b).drop_last() =~= a + b.drop_last());
        lemma_count_concat(a, b.drop_last(), id);
    }
}

pub open spec fn one_if(c: bool) -> int {
    if c { 1 } else { 0 }
}

proof fn lemma_count_single(v: RoomSnapshot, id: Seq<char>)
    ensures
        count_id(seq![v], id) == one_if(v.room_id@ == id),
{
    let one = seq![v];
    assert(one.drop_last() =~= Seq::<RoomSnapshot>::empty());
    assert(one.last() == v);
    assert(count_id(Seq::<RoomSnapshot>::empty(), id) == 0);
    assert(count_id(one, id) == count_id(one.drop_last(), id) + one_if(v.room_id@ == id));
}

proof fn lemma_count_insert(m: Seq<RoomSnapshot>, i: int, v: RoomSnapshot, id: Seq<char>)
    requires
        0 <= i <= m.len(),
    ensures
        count_id(m.insert(i, v), id) == count_id(m, id) + one_if(v.room_id@ == id),
{
    let a = m.subrange(0, i);
    let b = m.subrange(i, m.len() as int);
    assert(m =~= a + b);
    assert(m.insert(i, v) =~= a + (seq![v] + b));
    lemma_count_concat(a, b, id);
    lemma_count_concat(a, seq![v] + b, id);
    lemma_count_concat(seq![v], b, id);
    lemma_count_single(v, id);
}

proof fn lemma_count_remove(m: Seq<RoomSnapshot>, i: int, id: Seq<char>)
    requires
        0 <= i < m.len(),
    ensures
        count_id(m.remove(i), id) == count_id(m, id) - one_if(m[i].room_id@ == id),
{
    let a = m.subrange(0, i);
    let b = m.subrange(i + 1, m.len() as int);
    assert(m =~= a + (seq![m[i]] + b));
    assert(m.remove(i) =~= a + b);
    lemma_count_concat(a, b, id);
    lemma_count_concat(a, seq![m[i]] + b, id);
    lemma_count_concat(seq![m[i]], b, id);
    lemma_count_single(m[i], id);
}

proof fn lemma_remove_balance(s: RoomSnapshot, id: Seq<char>)
    ensures
        lifecycle_balance(remove_effects(s), id) == -one_if(s.room_id@ == id),
{
    let e = remove_effects(s);
    let e1 = e.drop_last();
    assert(e1.drop_last() =~= Seq::<EffectSpec>::empty());
    assert(e.last() == EffectSpec::RemoveRoom(s.room_id@, s.state));
    assert(e1.last() == EffectSpec::TearDownSession(s.room_id@));
    assert(lifecycle_balance(Seq::<EffectSpec>::empty(), id) == 0);
    assert(lifecycle_balance(e1, id) == lifecycle_balance(e1.drop_last(), id) + lifecycle_delta(e1.last(), id));
    assert(lifecycle_balance(e, id) == lifecycle_balance(e1, id) + lifecycle_delta(e.last(), id));
}

proof fn lemma_add_balance(s: RoomSnapshot, id: Seq<char>)
    requires
        s.state == RoomState::Joined,
    ensures
        lifecycle_balance(add_effects(s), id) == one_if(s.room_id@ == id),
{
    let e = add_effects(s);
    assert(e.drop_last() =~= Seq::<EffectSpec>::empty());
    assert(e.last() == EffectSpec::CreateJoinedSession(s));
    assert(lifecycle_balance(Seq::<EffectSpec>::empty(), id) == 0);
    assert(lifecycle_balance(e, id) == lifecycle_balance(e.drop_last(), id) + lifecycle_delta(e.last(), id));
}

proof fn lemma_neutral_balance(es: Seq<EffectSpec>, id: Seq<char>)
    requires
        forall|k: int| 0 <= k < es.len() ==> lifecycle_delta(#[trigger] es[k], id) == 0,
    ensures
        lifecycle_balance(es, id) == 0,
    decreases es.len(),
{
    if es.len() > 0 {
        assert forall|k: int| 0 <= k < es.drop_last().len() implies lifecycle_delta(
            #[trigger] es.drop_last()[k],
            id,
        ) == 0 by {
            assert(es.drop_last()[k] == es[k]);
        }
        lemma_neutral_balance(es.drop_last(), id);
    }
}

proof fn lemma_update_balance(p: RoomSnapshot, v: RoomSnapshot, id: Seq<char>)
    requires
        p.state == RoomState::Joined,
        v.state == RoomState::Joined,
    ensures
        lifecycle_balance(update_effects(p, v), id) == one_if(v.room_id@ == id) - one_if(p.room_id@ == id),
{
    if p.room_id@ == v.room_id@ {
        let e = update_effects(p, v);
        let c = crate::reconciler::common_effects(p, v);
        let j = crate::reconciler::joined_effects(p, v);
        assert(e == c + j);
        assert forall|k: int| 0 <= k < e.len() implies lifecycle_delta(#[trigger] e[k], id) == 0 by {
            if k < c.len() {
                assert(e[k] == c[k]);
            } else {
                assert(e[k] == j[k - c.len()]);
            }
        }
        lemma_neutral_balance(e, id);
    } else {
        lemma_balance_concat(remove_effects(p), add_effects(v), id);
        lemma_remove_balance(p, id);
        lemma_add_balance(v, id);
    }
}

proof fn lemma_adds_balance(vs: Seq<RoomSnapshot>, id: Seq<char>)
    requires
        all_joined(vs),
    ensures
        lifecycle_balance(crate::reconciler::adds_of(vs), id) == count_id(vs, id),
    decreases vs.len(),
{
    if vs.len() > 0 {
        lemma_adds_balance(vs.drop_last(), id);
        lemma_balance_concat(crate::reconciler::adds_of(vs.drop_last()), add_effects(vs.last()), id);
        lemma_add_balance(vs.last(), id);
    }
}

proof fn lemma_pops_balance(m: Seq<RoomSnapshot>, length: nat, id: Seq<char>)
    ensures
        lifecycle_balance(crate::reconciler::pops_from_back(m, length), id) == count_id(
            m.subrange(0, min_nat(length, m.len()) as int),
            id,
        ) - count_id(m, id),
    decreases m.len(),
{
    if m.len() <= length {
        assert(m.subrange(0, min_nat(length, m.len()) as int) =~= m);
    } else {
        lemma_pops_balance(m.drop_last(), length, id);
        lemma_balance_concat(remove_effects(m.last()), crate::reconciler::pops_from_back(m.drop_last(), length), id);
        lemma_remove_balance(m.last(), id);
        assert(m.drop_last().subrange(0, min_nat(length, m.drop_last().len()) as int) =~= m.subrange(
            0,
            min_nat(length, m.len()) as int,
        ));
    }
}

proof fn lemma_rest_joined(ds: Seq<RoomDiff>)
    requires
        ds.len() > 0,
        diffs_all_joined(ds),
    ensures
        diffs_all_joined(ds.drop_first()),
{
    assert forall|k: int| 0 <= k < ds.drop_first().len() implies match #[trigger] ds.drop_first()[k] {
        RoomDiff::Append { values } => all_joined(values@),
        RoomDiff::Reset { values } => all_joined(values@),
        RoomDiff::PushFront { value } => value.state == RoomState::Joined,
        RoomDiff::PushBack { value } => value.state == RoomState::Joined,
        RoomDiff::Insert { value, .. } => value.state == RoomState::Joined,
        RoomDiff::SetValue { value, .. } => value.state == RoomState::Joined,
        _ => true,
    } by {
        assert(ds.drop_first()[k] == ds[k + 1]);
    }
}

proof fn lemma_clear_marks(id: Seq<char>)
    ensures
        lifecycle_balance(seq![EffectSpec::ClearSessions, EffectSpec::ClearRooms], id) == 0,
{
    let e = seq![EffectSpec::ClearSessions, EffectSpec::ClearRooms];
    assert forall|k: int| 0 <= k < e.len() implies lifecycle_delta(#[trigger] e[k], id) == 0 by {}
    lemma_neutral_balance(e, id);
}

/// Law: every room is announced and withdrawn exactly as often as it enters and leaves the
/// mirror. Over a batch, for any room id, the announcements (`AddJoinedRoom`,
/// `AddInvitedRoom`) minus the withdrawals (`RemoveRoom`) equal the change in the number of
/// mirror entries with that id. So, from an empty mirror, the running balance of a room
/// after any sequence of batches is its number of entries in the mirror: 0 or 1 while the
/// server's collection holds each room once. Stated for runs whose rooms are all joined.
#[verifier::rlimit(100)]
#[verifier::spinoff_prover]
pub proof fn lemma_lifecycle_balance(m: Seq<RoomSnapshot>, ds: Seq<RoomDiff>, id: Seq<char>)
    requires
        all_joined(m),
        diffs_all_joined(ds),
    ensures
        lifecycle_balance(batch(m, ds).1, id) == count_id(batch(m, ds).0, id) - count_id(m, id),
        all_joined(batch(m, ds).0),
    decreases ds.len(),
{
    if ds.len() == 0 {
        assert(lifecycle_balance(Seq::<EffectSpec>::empty(), id) == 0);
    } else {
        let rest = ds.drop_first();
        lemma_rest_joined(ds);
        assert(diffs_all_joined(ds) ==> match ds[0] {
            RoomDiff::Append { values } => all_joined(values@),
            RoomDiff::Reset { values } => all_joined(values@),
            RoomDiff::PushFront { value } => value.state == RoomState::Joined,
            RoomDiff::PushBack { value } => value.state == RoomState::Joined,
            RoomDiff::Insert { value, .. } => value.state == RoomState::Joined,
            RoomDiff::SetValue { value, .. } => value.state == RoomState::Joined,
            _ => true,
        });
        match ds[0] {
            RoomDiff::Append { values } => {
                let m1 = m + values@;
                assert(all_joined(m1));
                lemma_lifecycle_balance(m1, rest, id);
                lemma_balance_concat(crate::reconciler::adds_of(values@), batch(m1, rest).1, id);
                lemma_adds_balance(values@, id);
                lemma_count_concat(m, values@, id);
            },
            RoomDiff::Clear => {
                let e0 = Seq::<RoomSnapshot>::empty();
                assert(all_joined(e0));
                lemma_lifecycle_balance(e0, rest, id);
                let p = crate::reconciler::pops_from_back(m, 0);
                let c = seq![EffectSpec::ClearSessions, EffectSpec::ClearRooms];
                lemma_balance_concat(p, c, id);
                lemma_balance_concat(p + c, batch(e0, rest).1, id);
                lemma_pops_balance(m, 0, id);
                lemma_clear_marks(id);
                assert(m.subrange(0, 0) =~= e0);
                assert(count_id(e0, id) == 0);
            },
            RoomDiff::PushFront { value } => {
                let m1 = seq![value] + m;
                assert(all_joined(m1));
                lemma_lifecycle_balance(m1, rest, id);
                lemma_balance_concat(add_effects(value), batch(m1, rest).1, id);
                lemma_add_balance(value, id);
                lemma_count_concat(seq![value], m, id);
                lemma_count_single(value, id);
            },
            RoomDiff::PushBack { value } => {
                let m1 = m.push(value);
                assert(all_joined(m1));
                lemma_lifecycle_balance(m1, rest, id);
                lemma_balance_concat(add_effects(value), batch(m1, rest).1, id);
                lemma_add_balance(value, id);
                assert(m1 =~= m + seq![value]);
                lemma_count_concat(m, seq![value], id);
                lemma_count_single(value, id);
            },
            RoomDiff::Insert { index, value } => {
                if index <= m.len() {
                    let m1 = m.insert(index as int, value);
                    assert(all_joined(m1));
                    lemma_lifecycle_balance(m1, rest, id);
                    lemma_balance_concat(add_effects(value), batch(m1, rest).1, id);
                    lemma_add_balance(value, id);
                    lemma_count_insert(m, index as int, value, id);
                } else {
                    lemma_lifecycle_balance(m, rest, id);
                }
            },
            RoomDiff::SetValue { index, value } => {
                if index < m.len() {
                    let i = index as int;
                    let m1 = m.update(i, value);
                    assert(all_joined(m1));
                    lemma_lifecycle_balance(m1, rest, id);
                    lemma_balance_concat(update_effects(m[i], value), batch(m1, rest).1, id);
                    lemma_update_balance(m[i], value, id);
                    assert(m1 =~= m.remove(i).insert(i, value));
                    lemma_count_remove(m, i, id);
                    lemma_count_insert(m.remove(i), i, value, id);
                } else {
                    lemma_lifecycle_balance(m, rest, id);
                }
            },
            RoomDiff::Truncate { length } => {
                let m1 = m.subrange(0, min_nat(length as nat, m.len()) as int);
                assert(all_joined(m1));
                lemma_lifecycle_balance(m1, rest, id);
                lemma_balance_concat(crate::reconciler::pops_from_back(m, length as nat), batch(m1, rest).1, id);
                lemma_pops_balance(m, length as nat, id);
            },
            RoomDiff::Reset { values } => {
                let m1 = values@;
                assert(all_joined(m1));
                lemma_lifecycle_balance(m1, rest, id);
                let p = crate::reconciler::pops_from_back(m, 0);
                let c = seq![EffectSpec::ClearSessions, EffectSpec::ClearRooms];
                let a = crate::reconciler::adds_of(values@);
                lemma_balance_concat(p, c, id);
                lemma_balance_concat(p + c, a, id);
                lemma_balance_concat(p + c + a, batch(m1, rest).1, id);
                lemma_pops_balance(m, 0, id);
                lemma_clear_marks(id);
                lemma_adds_balance(values@, id);
                assert(m.subrange(0, 0) =~= Seq::<RoomSnapshot>::empty());
                assert(count_id(Seq::<RoomSnapshot>::empty(), id) == 0);
            },
            RoomDiff::PopFront | RoomDiff::PopBack | RoomDiff::Remove { .. } => {
                let i: int = match ds[0] {
                    RoomDiff::PopFront => 0,
                    RoomDiff::PopBack => m.len() - 1,
                    RoomDiff::Remove { index } => index as int,
                    _ => 0,
                };
                if 0 <= i < m.len() {
                    let room = m[i];
                    let m1 = m.remove(i);
                    assert(all_joined(m1));
                    lemma_count_remove(m, i, id);
                    if rest.len() > 0 && crate::reconciler::reinsertion(m1, room, rest[0]) is Some {
                        let (m2, v) = crate::reconciler::reinsertion(m1, room, rest[0]).unwrap();
                        let rest2 = rest.drop_first();
                        lemma_rest_joined(rest);
                        assert(diffs_all_joined(rest) ==> match rest[0] {
                            RoomDiff::PushFront { value } => value.state == RoomState::Joined,
                            RoomDiff::PushBack { value } => value.state == RoomState::Joined,
                            RoomDiff::Insert { value, .. } => value.state == RoomState::Joined,
                            _ => true,
                        });
                        match rest[0] {
                            RoomDiff::Insert { index, value } => {
                                lemma_count_insert(m1, index as int, value, id);
                            },
                            RoomDiff::PushFront { value } => {
                                lemma_count_concat(seq![value], m1, id);
                                lemma_count_single(value, id);
                            },
                            RoomDiff::PushBack { value } => {
                                assert(m1.push(value) =~= m1 + seq![value]);
                                lemma_count_concat(m1, seq![value], id);
                                lemma_count_single(value, id);
                            },
                            _ => {},
                        }
                        assert(v.state == RoomState::Joined);
                        assert(all_joined(m2));
                        lemma_lifecycle_balance(m2, rest2, id);
                        lemma_balance_concat(update_effects(room, v), batch(m2, rest2).1, id);
                        lemma_update_balance(room, v, id);
                    } else {
                        lemma_lifecycle_balance(m1, rest, id);
                        lemma_balance_concat(remove_effects(room), batch(m1, rest).1, id);
                        lemma_remove_balance(room, id);
                    }
                } else {
                    lemma_lifecycle_balance(m, rest, id);
                }
            },
        }
    }
}

/// The mirror and all the effects after applying the batches in order to mirror `m`.
pub open spec fn run(m: Seq<RoomSnapshot>, bs: Seq<Seq<RoomDiff>>) -> (Seq<RoomSnapshot>, Seq<EffectSpec>)
    decreases bs.len(),
{
    if bs.len() == 0 {
        (m, Seq::empty())
    } else {
        let r = run(m, bs.drop_last());
        let b = batch(r.0, bs.last());
        (b.0, r.1 + b.1)
    }
}

/// Law: from an empty mirror, after any sequence of batches of joined rooms, every room
/// has been announced (`AddJoinedRoom`) exactly as many more times than withdrawn
/// (`RemoveRoom`) as the mirror has entries with its id. So while the server's collection
/// holds each room once, the running balance of every room is 0 or 1, and the rooms the
/// store holds are exactly the rooms of the mirror, each with one joined entry.
pub proof fn lemma_announced_rooms_match_mirror(bs: Seq<Seq<RoomDiff>>, id: Seq<char>)
    requires
        forall|k: int| 0 <= k < bs.len() ==> diffs_all_joined(#[trigger] bs[k]),
    ensures
        lifecycle_balance(run(Seq::empty(), bs).1, id) == count_id(run(Seq::empty(), bs).0, id),
        all_joined(run(Seq::empty(), bs).0),
    decreases bs.len(),
{
    let e0 = Seq::<RoomSnapshot>::empty();
    if bs.len() == 0 {
        assert(count_id(e0, id) == 0);
        assert(lifecycle_balance(Seq::<EffectSpec>::empty(), id) == 0);
    } else {
        let prefix = bs.drop_last();
        assert forall|k: int| 0 <= k < prefix.len() implies diffs_all_joined(#[trigger] prefix[k]) by {
            assert(prefix[k] == bs[k]);
        }
        lemma_announced_rooms_match_mirror(prefix, id);
        let r = run(e0, prefix);
        assert(diffs_all_joined(bs[bs.len() - 1]));
        lemma_lifecycle_balance(r.0, bs.last(), id);
        lemma_balance_concat(r.1, batch(r.0, bs.last()).1, id);
    }
}

/// Law: a room that goes from Invited to Joined gets exactly one new session and one
/// `AddJoinedRoom`; a room that goes from Joined to Invited loses its session and is
/// announced as invited.
pub proof fn lemma_state_transitions(p: RoomSnapshot, v: RoomSnapshot)
    requires
        p.room_id@ == v.room_id@,
    ensures
        p.state == RoomState::Invited && v.state == RoomState::Joined ==> update_effects(p, v) == seq![
            EffectSpec::CreateJoinedSession(v),
        ],
        p.state == RoomState::Joined && v.state == RoomState::Invited ==> update_effects(p, v) == seq![
            EffectSpec::TearDownSession(v.room_id@),
            EffectSpec::AddInvited(v),
        ],
{
    if p.state == RoomState::Joined && v.state == RoomState::Invited {
        assert(update_effects(p, v) =~= seq![EffectSpec::TearDownSession(v.room_id@), EffectSpec::AddInvited(v)]);
    }
}

/// The length of the collection after the batches, one after the other.
pub open spec fn run_expected_len(n: nat, bs: Seq<Seq<RoomDiff>>) -> nat
    decreases bs.len(),
{
    if bs.len() == 0 {
        n
    } else {
        expected_len(run_expected_len(n, bs.drop_last()), bs.last())
    }
}

/// Every batch is valid against the collection it applies to.
pub open spec fn run_valid(n: nat, bs: Seq<Seq<RoomDiff>>) -> bool
    decreases bs.len(),
{
    bs.len() == 0 || (run_valid(n, bs.drop_last()) && diffs_valid(run_expected_len(n, bs.drop_last()), bs.last()))
}

/// Law: after any sequence of valid batches, the mirror is as long as the server's
/// collection: what the batches add minus what they remove.
pub proof fn lemma_run_length(m: Seq<RoomSnapshot>, bs: Seq<Seq<RoomDiff>>)
    requires
        run_valid(m.len(), bs),
    ensures
        run(m, bs).0.len() == run_expected_len(m.len(), bs),
    decreases bs.len(),
{
    if bs.len() > 0 {
        lemma_run_length(m, bs.drop_last());
        lemma_mirror_length(run(m, bs.drop_last()).0, bs.last());
    }
}

} // verus!
