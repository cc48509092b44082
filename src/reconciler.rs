use vstd::prelude::*;
use crate::models::UnreadMessageCount;
use crate::power_levels::UserPowerLevels;
use crate::room::{JoinedRoomInfo, RoomDisplayName, RoomState, RoomsListUpdate};
use crate::rooms_list::opt_view;
use crate::snapshot::{
    clone_name, clone_opt_string, invited_info_of, invited_room_info, joined_info_of,
    joined_room_info, name_view, opt_name_view, tags_or_default, tags_or_empty, tags_view,
    RoomSnapshot,
};

verus! {

/// One positional change to the server-ordered collection of rooms.
pub enum RoomDiff {
    Append { values: Vec<RoomSnapshot> },
    Clear,
    PushFront { value: RoomSnapshot },
    PushBack { value: RoomSnapshot },
    PopFront,
    PopBack,
    Insert { index: usize, value: RoomSnapshot },
    SetValue { index: usize, value: RoomSnapshot },
    Remove { index: usize },
    Truncate { length: usize },
    Reset { values: Vec<RoomSnapshot> },
}

/// What the reconciler asks the outside to do, in order.
pub enum ReconcilerEffect {
    /// Subscribe the transport to the room, build its live timeline (a failure is fatal),
    /// start its background consumer and register the session; then enqueue
    /// `AddJoinedRoom(info)`.
    CreateJoinedSession { room_id: String, info: JoinedRoomInfo },
    /// Tear down the room's session, if it has one: abort its consumer, drop its
    /// subscriptions.
    TearDownSession { room_id: String },
    /// Tear down every session.
    ClearSessions,
    /// Enqueue an update for the rooms list.
    Enqueue(RoomsListUpdate),
    /// Recompute the preview of the room's latest message.
    RefreshLatestEvent { room_id: String },
    /// Deliver the current user's new powers to the room's live session.
    SendPowerLevels { room_id: String, levels: UserPowerLevels },
}

/// An effect as the contracts see it.
pub enum EffectSpec {
    CreateJoinedSession(RoomSnapshot),
    AddInvited(RoomSnapshot),
    TearDownSession(Seq<char>),
    ClearSessions,
    ClearRooms,
    RemoveRoom(Seq<char>, RoomState),
    UpdateAvatar(Seq<char>, Seq<char>),
    UpdateName(Seq<char>, (u8, Seq<char>)),
    UpdateTopic(Seq<char>, Seq<char>),
    RefreshLatest(Seq<char>),
    Tags(Seq<char>, Seq<String>),
    Unread(Seq<char>, u64, u64),
    IsDirect(Seq<char>, bool),
    Tombstoned(Seq<char>),
    PowerLevels(Seq<char>, UserPowerLevels),
}

/// The effect `e` is the one that `s` describes.
pub open spec fn realizes1(e: ReconcilerEffect, s: EffectSpec) -> bool {
    match s {
        EffectSpec::CreateJoinedSession(snap) => e matches ReconcilerEffect::CreateJoinedSession {
            room_id,
            info,
        } && room_id@ == snap.room_id@ && joined_info_of(info, snap),
        EffectSpec::AddInvited(snap) => e matches ReconcilerEffect::Enqueue(
            RoomsListUpdate::AddInvitedRoom(info),
        ) && invited_info_of(info, snap),
        EffectSpec::TearDownSession(id) => e matches ReconcilerEffect::TearDownSession { room_id }
            && room_id@ == id,
        EffectSpec::ClearSessions => e is ClearSessions,
        EffectSpec::ClearRooms => e matches ReconcilerEffect::Enqueue(RoomsListUpdate::ClearRooms),
        EffectSpec::RemoveRoom(id, st) => e matches ReconcilerEffect::Enqueue(
            RoomsListUpdate::RemoveRoom { room_id, new_state },
        ) && room_id@ == id && new_state == st,
        EffectSpec::UpdateAvatar(id, a) => e matches ReconcilerEffect::Enqueue(
            RoomsListUpdate::UpdateRoomAvatar { room_id, avatar },
        ) && room_id@ == id && avatar@ == a,
        EffectSpec::UpdateName(id, n) => e matches ReconcilerEffect::Enqueue(
            RoomsListUpdate::UpdateRoomName { room_id, new_room_name },
        ) && room_id@ == id && name_view(new_room_name) == n,
        EffectSpec::UpdateTopic(id, t) => e matches ReconcilerEffect::Enqueue(
            RoomsListUpdate::UpdateTopic { room_id, new_topic },
        ) && room_id@ == id && new_topic@ == t,
        EffectSpec::RefreshLatest(id) => e matches ReconcilerEffect::RefreshLatestEvent { room_id }
            && room_id@ == id,
        EffectSpec::Tags(id, t) => e matches ReconcilerEffect::Enqueue(
            RoomsListUpdate::Tags { room_id, new_tags },
        ) && room_id@ == id && new_tags@ == t,
        EffectSpec::Unread(id, m, n) => e matches ReconcilerEffect::Enqueue(
            RoomsListUpdate::UpdateNumUnreadMessages { room_id, unread_messages, unread_mentions },
        ) && room_id@ == id && unread_messages == UnreadMessageCount::Known(m) && unread_mentions
            == n,
        EffectSpec::IsDirect(id, b) => e matches ReconcilerEffect::Enqueue(
            RoomsListUpdate::UpdateIsDirect { room_id, is_direct },
        ) && room_id@ == id && is_direct == b,
        EffectSpec::Tombstoned(id) => e matches ReconcilerEffect::Enqueue(
            RoomsListUpdate::TombstonedRoom { room_id },
        ) && room_id@ == id,
        EffectSpec::PowerLevels(id, l) => e matches ReconcilerEffect::SendPowerLevels {
            room_id,
            levels,
        } && room_id@ == id && levels == l,
    }
}

/// The effects `e` are, one for one, those that `s` describes.
pub open spec fn realizes(e: Seq<ReconcilerEffect>, s: Seq<EffectSpec>) -> bool {
    e.len() == s.len() && forall|k: int| 0 <= k < e.len() ==> realizes1(#[trigger] e[k], s[k])
}

/// What adding a room does: invited and joined rooms appear; knocked, banned and left
/// rooms are not surfaced.
pub open spec fn add_effects(s: RoomSnapshot) -> Seq<EffectSpec> {
    match s.state {
        RoomState::Invited => seq![EffectSpec::AddInvited(s)],
        RoomState::Joined => seq![EffectSpec::CreateJoinedSession(s)],
        _ => Seq::empty(),
    }
}

/// What removing a room does: its session goes, and the rooms list drops it.
pub open spec fn remove_effects(s: RoomSnapshot) -> Seq<EffectSpec> {
    seq![EffectSpec::TearDownSession(s.room_id@), EffectSpec::RemoveRoom(s.room_id@, s.state)]
}

pub open spec fn when(c: bool, e: EffectSpec) -> Seq<EffectSpec> {
    if c { seq![e] } else { Seq::empty() }
}

/// The granular updates that concern every room: avatar, name and topic.
pub open spec fn common_effects(prev: RoomSnapshot, new: RoomSnapshot) -> Seq<EffectSpec> {
    let id = new.room_id@;
    when(
        opt_view(prev.room_avatar) != opt_view(new.room_avatar) && new.room_avatar is Some,
        EffectSpec::UpdateAvatar(id, new.room_avatar.unwrap()@),
    ) + when(
        opt_name_view(prev.display_name) != opt_name_view(new.display_name) && new.display_name is Some,
        EffectSpec::UpdateName(id, name_view(new.display_name.unwrap())),
    ) + when(
        opt_view(prev.topic) != opt_view(new.topic) && new.topic is Some,
        EffectSpec::UpdateTopic(id, new.topic.unwrap()@),
    )
}

/// The granular updates that concern joined rooms only: the latest message (always
/// recomputed), tags, unread counts, direct-ness, tombstone (false to true only) and
/// the user's powers (when known and changed).
pub open spec fn joined_effects(prev: RoomSnapshot, new: RoomSnapshot) -> Seq<EffectSpec> {
    let id = new.room_id@;
    seq![EffectSpec::RefreshLatest(id)] + when(
        tags_view(prev.tags) != tags_view(new.tags),
        EffectSpec::Tags(id, tags_or_default(new.tags)),
    ) + when(
        prev.num_unread_messages != new.num_unread_messages || prev.num_unread_mentions
            != new.num_unread_mentions,
        EffectSpec::Unread(id, new.num_unread_messages, new.num_unread_mentions),
    ) + when(prev.is_direct != new.is_direct, EffectSpec::IsDirect(id, new.is_direct)) + when(
        !prev.is_tombstoned && new.is_tombstoned,
        EffectSpec::Tombstoned(id),
    ) + when(
        new.user_power_levels is Some && (prev.user_power_levels is None
            || prev.user_power_levels.unwrap() != new.user_power_levels.unwrap()),
        EffectSpec::PowerLevels(id, new.user_power_levels.unwrap()),
    )
}

/// The granular updates of a room whose state did not change.
pub open spec fn field_effects(prev: RoomSnapshot, new: RoomSnapshot) -> Seq<EffectSpec> {
    if new.state == RoomState::Joined {
        common_effects(prev, new) + joined_effects(prev, new)
    } else {
        common_effects(prev, new)
    }
}

/// What replacing the snapshot `prev` of a room by `new` does.
pub open spec fn update_effects(prev: RoomSnapshot, new: RoomSnapshot) -> Seq<EffectSpec> {
    if prev.room_id@ == new.room_id@ {
        if prev.state != new.state {
            match new.state {
                RoomState::Banned | RoomState::Left => remove_effects(new),
                RoomState::Joined => add_effects(new),
                // leaving Joined ends the room's live session
                RoomState::Invited => if prev.state == RoomState::Joined {
                    seq![EffectSpec::TearDownSession(new.room_id@)] + add_effects(new)
                } else {
                    add_effects(new)
                },
                RoomState::Knocked => Seq::empty(),
            }
        } else {
            field_effects(prev, new)
        }
    } else {
        remove_effects(prev) + add_effects(new)
    }
}


/// The effects of adding the rooms one after the other.
pub open spec fn adds_of(vs: Seq<RoomSnapshot>) -> Seq<EffectSpec>
    decreases vs.len(),
{
    if vs.len() == 0 {
        Seq::empty()
    } else {
        adds_of(vs.drop_last()) + add_effects(vs.last())
    }
}

/// The effects of popping rooms off the back of `m` until at most `length` are left.
pub open spec fn pops_from_back(m: Seq<RoomSnapshot>, length: nat) -> Seq<EffectSpec>
    decreases m.len(),
{
    if m.len() <= length {
        Seq::empty()
    } else {
        remove_effects(m.last()) + pops_from_back(m.drop_last(), length)
    }
}

/// When the diff after the removal of `room` puts a room with the same id back, the
/// mirror after that diff and the room put back.
pub open spec fn reinsertion(m1: Seq<RoomSnapshot>, room: RoomSnapshot, next: RoomDiff) -> Option<
    (Seq<RoomSnapshot>, RoomSnapshot),
> {
    match next {
        RoomDiff::Insert { index, value } => if value.room_id@ == room.room_id@ && index
            <= m1.len() {
            Some((m1.insert(index as int, value), value))
        } else {
            None
        },
        RoomDiff::PushFront { value } => if value.room_id@ == room.room_id@ {
            Some((seq![value] + m1, value))
        } else {
            None
        },
        RoomDiff::PushBack { value } => if value.room_id@ == room.room_id@ {
            Some((m1.push(value), value))
        } else {
            None
        },
        _ => None,
    }
}

pub open spec fn min_nat(a: nat, b: nat) -> nat {
    if a <= b { a } else { b }
}

/// The mirror and the effects after applying the diffs, left to right, to mirror `m`.
/// A removal directly followed by a diff that puts the same room back is one update.
/// A `SetValue`, `Insert` or `Remove` whose index is out of bounds is skipped.
pub open spec fn batch(m: Seq<RoomSnapshot>, ds: Seq<RoomDiff>) -> (Seq<RoomSnapshot>, Seq<EffectSpec>)
    decreases ds.len(),
{
    if ds.len() == 0 {
        (m, Seq::empty())
    } else {
        let rest = ds.drop_first();
        match ds[0] {
            RoomDiff::Append { values } => {
                let r = batch(m + values@, rest);
                (r.0, adds_of(values@) + r.1)
            },
            RoomDiff::Clear => {
                let r = batch(Seq::empty(), rest);
                (
                    r.0,
                    pops_from_back(m, 0) + seq![EffectSpec::ClearSessions, EffectSpec::ClearRooms]
                        + r.1,
                )
            },
            RoomDiff::PushFront { value } => {
                let r = batch(seq![value] + m, rest);
                (r.0, add_effects(value) + r.1)
            },
            RoomDiff::PushBack { value } => {
                let r = batch(m.push(value), rest);
                (r.0, add_effects(value) + r.1)
            },
            RoomDiff::Insert { index, value } => if index <= m.len() {
                let r = batch(m.insert(index as int, value), rest);
                (r.0, add_effects(value) + r.1)
            } else {
                batch(m, rest)
            },
            RoomDiff::SetValue { index, value } => if index < m.len() {
                let r = batch(m.update(index as int, value), rest);
                (r.0, update_effects(m[index as int], value) + r.1)
            } else {
                batch(m, rest)
            },
            RoomDiff::Truncate { length } => {
                let r = batch(m.subrange(0, min_nat(length as nat, m.len()) as int), rest);
                (r.0, pops_from_back(m, length as nat) + r.1)
            },
            RoomDiff::Reset { values } => {
                let r = batch(values@, rest);
                (
                    r.0,
                    pops_from_back(m, 0) + seq![EffectSpec::ClearSessions, EffectSpec::ClearRooms]
                        + adds_of(values@) + r.1,
                )
            },
            RoomDiff::PopFront | RoomDiff::PopBack | RoomDiff::Remove { .. } => {
                let i: int = match ds[0] {
                    RoomDiff::PopFront => 0,
                    RoomDiff::PopBack => m.len() - 1,
                    RoomDiff::Remove { index } => index as int,
                    _ => 0,
                };
                if 0 <= i < m.len() {
                    let room = m[i];
                    let m1 = m.remove(i);
                    if rest.len() > 0 && reinsertion(m1, room, rest[0]) is Some {
                        let (m2, v) = reinsertion(m1, room, rest[0]).unwrap();
                        let r = batch(m2, rest.drop_first());
                        (r.0, update_effects(room, v) + r.1)
                    } else {
                        let r = batch(m1, rest);
                        (r.0, remove_effects(room) + r.1)
                    }
                } else {
                    batch(m, rest)
                }
            },
        }
    }
}


fn emit(
    effects: &mut Vec<ReconcilerEffect>,
    e: ReconcilerEffect,
    Ghost(done): Ghost<Seq<EffectSpec>>,
    Ghost(s): Ghost<EffectSpec>,
)
    requires
        realizes(old(effects)@, done),
        realizes1(e, s),
    ensures
        realizes(final(effects)@, done.push(s)),
{
    effects.push(e);
    assert forall|k: int| 0 <= k < effects@.len() implies realizes1(
        #[trigger] effects@[k],
        done.push(s)[k],
    ) by {
        if k < done.len() {
            assert(effects@[k] == old(effects)@[k]);
        }
    }
}

fn opt_str_eq(a: &Option<String>, b: &Option<String>) -> (r: bool)
    ensures
        r == (opt_view(*a) == opt_view(*b)),
{
    match (a, b) {
        (Some(x), Some(y)) => *x == *y,
        (None, None) => true,
        _ => false,
    }
}

fn name_eq(a: &RoomDisplayName, b: &RoomDisplayName) -> (r: bool)
    ensures
        r == (name_view(*a) == name_view(*b)),
{
    match (a, b) {
        (RoomDisplayName::Named(x), RoomDisplayName::Named(y)) => *x == *y,
        (RoomDisplayName::Aliased(x), RoomDisplayName::Aliased(y)) => *x == *y,
        (RoomDisplayName::Calculated(x), RoomDisplayName::Calculated(y)) => *x == *y,
        (RoomDisplayName::EmptyWas(x), RoomDisplayName::EmptyWas(y)) => *x == *y,
        (RoomDisplayName::Empty, RoomDisplayName::Empty) => true,
        _ => false,
    }
}

fn opt_name_eq(a: &Option<RoomDisplayName>, b: &Option<RoomDisplayName>) -> (r: bool)
    ensures
        r == (opt_name_view(*a) == opt_name_view(*b)),
{
    match (a, b) {
        (Some(x), Some(y)) => name_eq(x, y),
        (None, None) => true,
        _ => false,
    }
}

fn strings_eq(a: &Vec<String>, b: &Vec<String>) -> (r: bool)
    ensures
        r == (crate::text::views(a@) == crate::text::views(b@)),
{
    if a.len() != b.len() {
        assert(crate::text::views(a@).len() != crate::text::views(b@).len());
        return false;
    }
    let mut i: usize = 0;
    while i < a.len()
        invariant
            a@.len() == b@.len(),
            i <= a@.len(),
            forall|k: int| 0 <= k < i ==> a@[k]@ == b@[k]@,
        decreases a@.len() - i,
    {
        if a[i] != b[i] {
            assert(crate::text::views(a@)[i as int] != crate::text::views(b@)[i as int]);
            return false;
        }
        i = i + 1;
    }
    assert(crate::text::views(a@) =~= crate::text::views(b@));
    true
}

fn tags_eq(a: &Option<Vec<String>>, b: &Option<Vec<String>>) -> (r: bool)
    ensures
        r == (tags_view(*a) == tags_view(*b)),
{
    match (a, b) {
        (Some(x), Some(y)) => strings_eq(x, y),
        (None, None) => true,
        _ => false,
    }
}

/// Whether the new powers differ from the old ones, when the new ones are known.
fn powers_changed(old: &Option<UserPowerLevels>, new: &Option<UserPowerLevels>) -> (r: bool)
    ensures
        r == (new is Some && (old is None || old.unwrap() != new.unwrap())),
{
    match (old, new) {
        (_, None) => false,
        (None, Some(_)) => true,
        (Some(o), Some(n)) => *o != *n,
    }
}

/// Emits the effects of adding a room.
fn add_room(s: &RoomSnapshot, effects: &mut Vec<ReconcilerEffect>, Ghost(done): Ghost<Seq<EffectSpec>>)
    requires
        realizes(old(effects)@, done),
    ensures
        realizes(final(effects)@, done + add_effects(*s)),
{
    match s.state {
        RoomState::Invited => {
            let info = invited_room_info(s);
            emit(
                effects,
                ReconcilerEffect::Enqueue(RoomsListUpdate::AddInvitedRoom(info)),
                Ghost(done),
                Ghost(EffectSpec::AddInvited(*s)),
            );
            assert(done.push(EffectSpec::AddInvited(*s)) =~= done + add_effects(*s));
        },
        RoomState::Joined => {
            let info = joined_room_info(s);
            emit(
                effects,
                ReconcilerEffect::CreateJoinedSession { room_id: s.room_id.clone(), info },
                Ghost(done),
                Ghost(EffectSpec::CreateJoinedSession(*s)),
            );
            assert(done.push(EffectSpec::CreateJoinedSession(*s)) =~= done + add_effects(*s));
        },
        _ => {
            assert(done =~= done + add_effects(*s));
        },
    }
}

/// Emits the effects of removing a room.
fn remove_room(s: &RoomSnapshot, effects: &mut Vec<ReconcilerEffect>, Ghost(done): Ghost<Seq<EffectSpec>>)
    requires
        realizes(old(effects)@, done),
    ensures
        realizes(final(effects)@, done + remove_effects(*s)),
{
    let ghost id = s.room_id@;
    emit(
        effects,
        ReconcilerEffect::TearDownSession { room_id: s.room_id.clone() },
        Ghost(done),
        Ghost(EffectSpec::TearDownSession(id)),
    );
    emit(
        effects,
        ReconcilerEffect::Enqueue(
            RoomsListUpdate::RemoveRoom { room_id: s.room_id.clone(), new_state: s.state },
        ),
        Ghost(done.push(EffectSpec::TearDownSession(id))),
        Ghost(EffectSpec::RemoveRoom(id, s.state)),
    );
    assert(done.push(EffectSpec::TearDownSession(id)).push(EffectSpec::RemoveRoom(id, s.state))
        =~= done + remove_effects(*s));
}

/// Emits one effect when `c` holds.
fn emit_when(
    effects: &mut Vec<ReconcilerEffect>,
    c: bool,
    e: ReconcilerEffect,
    Ghost(done): Ghost<Seq<EffectSpec>>,
    Ghost(s): Ghost<EffectSpec>,
)
    requires
        realizes(old(effects)@, done),
        c ==> realizes1(e, s),
    ensures
        realizes(final(effects)@, done + when(c, s)),
{
    if c {
        emit(effects, e, Ghost(done), Ghost(s));
        assert(done.push(s) =~= done + when(c, s));
    } else {
        assert(done =~= done + when(c, s));
    }
}

/// Emits the granular updates that concern every room.
#[verifier::rlimit(60)]
fn update_common(
    prev: &RoomSnapshot,
    new: &RoomSnapshot,
    effects: &mut Vec<ReconcilerEffect>,
    Ghost(done): Ghost<Seq<EffectSpec>>,
)
    requires
        realizes(old(effects)@, done),
    ensures
        realizes(final(effects)@, done + common_effects(*prev, *new)),
{
    let ghost id = new.room_id@;
    let ghost d0 = done;
    let c = !opt_str_eq(&prev.room_avatar, &new.room_avatar) && new.room_avatar.is_some();
    let e = match &new.room_avatar {
        Some(a) if c => ReconcilerEffect::Enqueue(
            RoomsListUpdate::UpdateRoomAvatar { room_id: new.room_id.clone(), avatar: a.clone() },
        ),
        _ => ReconcilerEffect::ClearSessions,
    };
    emit_when(effects, c, e, Ghost(d0), Ghost(EffectSpec::UpdateAvatar(id, new.room_avatar.unwrap()@)));
    let ghost d1 = d0 + when(c, EffectSpec::UpdateAvatar(id, new.room_avatar.unwrap()@));

    let c = !opt_name_eq(&prev.display_name, &new.display_name) && new.display_name.is_some();
    let e = match &new.display_name {
        Some(n) if c => ReconcilerEffect::Enqueue(
            RoomsListUpdate::UpdateRoomName { room_id: new.room_id.clone(), new_room_name: clone_name(n) },
        ),
        _ => ReconcilerEffect::ClearSessions,
    };
    emit_when(effects, c, e, Ghost(d1), Ghost(EffectSpec::UpdateName(id, name_view(new.display_name.unwrap()))));
    let ghost d2 = d1 + when(c, EffectSpec::UpdateName(id, name_view(new.display_name.unwrap())));

    let c = !opt_str_eq(&prev.topic, &new.topic) && new.topic.is_some();
    let e = match &new.topic {
        Some(t) if c => ReconcilerEffect::Enqueue(
            RoomsListUpdate::UpdateTopic { room_id: new.room_id.clone(), new_topic: t.clone() },
        ),
        _ => ReconcilerEffect::ClearSessions,
    };
    emit_when(effects, c, e, Ghost(d2), Ghost(EffectSpec::UpdateTopic(id, new.topic.unwrap()@)));
    let ghost d3 = d2 + when(c, EffectSpec::UpdateTopic(id, new.topic.unwrap()@));

    assert(d3 =~= done + common_effects(*prev, *new));
}

/// Emits the granular updates that concern joined rooms only.
#[verifier::rlimit(60)]
fn update_joined(
    prev: &RoomSnapshot,
    new: &RoomSnapshot,
    effects: &mut Vec<ReconcilerEffect>,
    Ghost(done): Ghost<Seq<EffectSpec>>,
)
    requires
        realizes(old(effects)@, done),
    ensures
        realizes(final(effects)@, done + joined_effects(*prev, *new)),
{
    let ghost id = new.room_id@;
    emit(
        effects,
        ReconcilerEffect::RefreshLatestEvent { room_id: new.room_id.clone() },
        Ghost(done),
        Ghost(EffectSpec::RefreshLatest(id)),
    );
    let ghost d4 = done.push(EffectSpec::RefreshLatest(id));

    let c = !tags_eq(&prev.tags, &new.tags);
    let e = ReconcilerEffect::Enqueue(
        RoomsListUpdate::Tags { room_id: new.room_id.clone(), new_tags: tags_or_empty(&new.tags) },
    );
    emit_when(effects, c, e, Ghost(d4), Ghost(EffectSpec::Tags(id, tags_or_default(new.tags))));
    let ghost d5 = d4 + when(c, EffectSpec::Tags(id, tags_or_default(new.tags)));

    let c = prev.num_unread_messages != new.num_unread_messages || prev.num_unread_mentions
        != new.num_unread_mentions;
    let e = ReconcilerEffect::Enqueue(
        RoomsListUpdate::UpdateNumUnreadMessages {
            room_id: new.room_id.clone(),
            unread_messages: UnreadMessageCount::Known(new.num_unread_messages),
            unread_mentions: new.num_unread_mentions,
        },
    );
    emit_when(
        effects,
        c,
        e,
        Ghost(d5),
        Ghost(EffectSpec::Unread(id, new.num_unread_messages, new.num_unread_mentions)),
    );
    let ghost d6 = d5 + when(
        c,
        EffectSpec::Unread(id, new.num_unread_messages, new.num_unread_mentions),
    );

    let c = prev.is_direct != new.is_direct;
    let e = ReconcilerEffect::Enqueue(
        RoomsListUpdate::UpdateIsDirect { room_id: new.room_id.clone(), is_direct: new.is_direct },
    );
    emit_when(effects, c, e, Ghost(d6), Ghost(EffectSpec::IsDirect(id, new.is_direct)));
    let ghost d7 = d6 + when(c, EffectSpec::IsDirect(id, new.is_direct));

    let c = !prev.is_tombstoned && new.is_tombstoned;
    let e = ReconcilerEffect::Enqueue(
        RoomsListUpdate::TombstonedRoom { room_id: new.room_id.clone() },
    );
    emit_when(effects, c, e, Ghost(d7), Ghost(EffectSpec::Tombstoned(id)));
    let ghost d8 = d7 + when(c, EffectSpec::Tombstoned(id));

    let c = powers_changed(&prev.user_power_levels, &new.user_power_levels);
    let e = match new.user_power_levels {
        Some(levels) => ReconcilerEffect::SendPowerLevels { room_id: new.room_id.clone(), levels },
        None => ReconcilerEffect::ClearSessions,
    };
    emit_when(
        effects,
        c,
        e,
        Ghost(d8),
        Ghost(EffectSpec::PowerLevels(id, new.user_power_levels.unwrap())),
    );
    assert(d8 + when(c, EffectSpec::PowerLevels(id, new.user_power_levels.unwrap())) =~= done
        + joined_effects(*prev, *new));
}

/// Emits the granular updates of a room whose state did not change.
fn update_fields(
    prev: &RoomSnapshot,
    new: &RoomSnapshot,
    effects: &mut Vec<ReconcilerEffect>,
    Ghost(done): Ghost<Seq<EffectSpec>>,
)
    requires
        realizes(old(effects)@, done),
    ensures
        realizes(final(effects)@, done + field_effects(*prev, *new)),
{
    update_common(prev, new, effects, Ghost(done));
    if new.state == RoomState::Joined {
        update_joined(prev, new, effects, Ghost(done + common_effects(*prev, *new)));
        assert(done + common_effects(*prev, *new) + joined_effects(*prev, *new) =~= done
            + field_effects(*prev, *new));
    }
}

/// Emits the effects of replacing the snapshot `old` of a room by `new`.
fn update_room(
    prev: &RoomSnapshot,
    new: &RoomSnapshot,
    effects: &mut Vec<ReconcilerEffect>,
    Ghost(done): Ghost<Seq<EffectSpec>>,
)
    requires
        realizes(old(effects)@, done),
    ensures
        realizes(final(effects)@, done + update_effects(*prev, *new)),
{
    if prev.room_id == new.room_id {
        if prev.state != new.state {
            match new.state {
                RoomState::Banned | RoomState::Left => {
                    remove_room(new, effects, Ghost(done));
                },
                RoomState::Joined => {
                    add_room(new, effects, Ghost(done));
                },
                RoomState::Invited => {
                    if prev.state == RoomState::Joined {
                        let ghost id = new.room_id@;
                        emit(
                            effects,
                            ReconcilerEffect::TearDownSession { room_id: new.room_id.clone() },
                            Ghost(done),
                            Ghost(EffectSpec::TearDownSession(id)),
                        );
                        add_room(new, effects, Ghost(done.push(EffectSpec::TearDownSession(id))));
                        assert(done.push(EffectSpec::TearDownSession(id)) + add_effects(*new) =~= done
                            + update_effects(*prev, *new));
                    } else {
                        add_room(new, effects, Ghost(done));
                    }
                },
                RoomState::Knocked => {
                    assert(done =~= done + update_effects(*prev, *new));
                },
            }
        } else {
            update_fields(prev, new, effects, Ghost(done));
        }
    } else {
        remove_room(prev, effects, Ghost(done));
        add_room(new, effects, Ghost(done + remove_effects(*prev)));
        assert(done + remove_effects(*prev) + add_effects(*new) =~= done + update_effects(*prev, *new));
    }
}

/// The room-list reconciler: a mirror of the server-ordered collection of rooms, kept
/// in step by applying diff batches in the order they arrive.
pub struct RoomListReconciler {
    pub mirror: Vec<RoomSnapshot>,
}

impl RoomListReconciler {
    pub fn new() -> (r: Self)
        ensures
            r.mirror@.len() == 0,
    {
        RoomListReconciler { mirror: Vec::new() }
    }

    /// Adds the rooms one after the other at the back of the mirror.
    fn append_all(
        &mut self,
        values: Vec<RoomSnapshot>,
        effects: &mut Vec<ReconcilerEffect>,
        Ghost(done): Ghost<Seq<EffectSpec>>,
    )
        requires
            realizes(old(effects)@, done),
        ensures
            final(self).mirror@ == old(self).mirror@ + values@,
            realizes(final(effects)@, done + adds_of(values@)),
    {
        let ghost vs = values@;
        let ghost m0 = self.mirror@;
        let n = values.len();
        let mut rest = values;
        let mut i: usize = 0;
        assert(vs.subrange(0, 0) =~= Seq::<RoomSnapshot>::empty());
        assert(m0 + vs.subrange(0, 0) =~= m0);
        assert(done + adds_of(Seq::empty()) =~= done);
        while rest.len() > 0
            invariant
                n == vs.len(),
                i <= n,
                rest@ == vs.subrange(i as int, n as int),
                self.mirror@ == m0 + vs.subrange(0, i as int),
                realizes(effects@, done + adds_of(vs.subrange(0, i as int))),
            decreases rest@.len(),
        {
            let v = rest.remove(0);
            proof {
                let p = vs.subrange(0, i as int + 1);
                assert(p.drop_last() =~= vs.subrange(0, i as int));
                assert(p.last() == v);
                assert(rest@ =~= vs.subrange(i as int + 1, n as int));
            }
            add_room(&v, effects, Ghost(done + adds_of(vs.subrange(0, i as int))));
            self.mirror.push(v);
            proof {
                assert(done + adds_of(vs.subrange(0, i as int)) + add_effects(v) =~= done + adds_of(
                    vs.subrange(0, i as int + 1),
                ));
                assert(self.mirror@ =~= m0 + vs.subrange(0, i as int + 1));
            }
            i = i + 1;
        }
        assert(vs.subrange(0, n as int) =~= vs);
    }

    /// Pops rooms off the back of the mirror, removing each, until at most `length` are left.
    fn pop_back_to(
        &mut self,
        length: usize,
        effects: &mut Vec<ReconcilerEffect>,
        Ghost(done): Ghost<Seq<EffectSpec>>,
    )
        requires
            realizes(old(effects)@, done),
        ensures
            final(self).mirror@ == old(self).mirror@.subrange(
                0,
                min_nat(length as nat, old(self).mirror@.len()) as int,
            ),
            realizes(final(effects)@, done + pops_from_back(old(self).mirror@, length as nat)),
    {
        let ghost m0 = self.mirror@;
        let ghost mut d = done;
        assert(done + pops_from_back(m0, length as nat) == d + pops_from_back(self.mirror@, length as nat));
        while self.mirror.len() > length
            invariant
                realizes(effects@, d),
                d + pops_from_back(self.mirror@, length as nat) == done + pops_from_back(m0, length as nat),
                self.mirror@ == m0.subrange(0, self.mirror@.len() as int),
                self.mirror@.len() >= min_nat(length as nat, m0.len()),
                self.mirror@.len() <= m0.len(),
            decreases self.mirror@.len(),
        {
            let ghost m = self.mirror@;
            let room = self.mirror.pop().unwrap();
            remove_room(&room, effects, Ghost(d));
            proof {
                assert(self.mirror@ =~= m.drop_last());
                assert(d + remove_effects(room) + pops_from_back(m.drop_last(), length as nat) =~= d
                    + pops_from_back(m, length as nat));
                d = d + remove_effects(room);
                assert(self.mirror@ =~= m0.subrange(0, self.mirror@.len() as int));
            }
        }
        assert(self.mirror@ =~= m0.subrange(0, min_nat(length as nat, m0.len()) as int));
        assert(pops_from_back(self.mirror@, length as nat) =~= Seq::empty());
        assert(d =~= done + pops_from_back(m0, length as nat));
    }

    /// Handles the diff that follows the removal of `room` from the mirror: when it puts
    /// the same room back, the pair is one update and the diff is consumed; otherwise
    /// the room is removed.
    fn after_removal(
        &mut self,
        room: RoomSnapshot,
        pending: &mut Vec<RoomDiff>,
        effects: &mut Vec<ReconcilerEffect>,
        Ghost(done): Ghost<Seq<EffectSpec>>,
    )
        requires
            realizes(old(effects)@, done),
        ensures
            ({
                let m1 = old(self).mirror@;
                let ps = old(pending)@;
                if ps.len() > 0 && reinsertion(m1, room, ps[0]) is Some {
                    let (m2, v) = reinsertion(m1, room, ps[0]).unwrap();
                    &&& final(self).mirror@ == m2
                    &&& final(pending)@ == ps.drop_first()
                    &&& realizes(final(effects)@, done + update_effects(room, v))
                } else {
                    &&& final(self).mirror@ == m1
                    &&& final(pending)@ == ps
                    &&& realizes(final(effects)@, done + remove_effects(room))
                }
            }),
    {
        let reinserts = pending.len() > 0 && match &pending[0] {
            RoomDiff::Insert { index, value } => value.room_id == room.room_id && *index
                <= self.mirror.len(),
            RoomDiff::PushFront { value } => value.room_id == room.room_id,
            RoomDiff::PushBack { value } => value.room_id == room.room_id,
            _ => false,
        };
        if reinserts {
            let ghost ps = pending@;
            let next = pending.remove(0);
            assert(pending@ =~= ps.drop_first());
            match next {
                RoomDiff::Insert { index, value } => {
                    update_room(&room, &value, effects, Ghost(done));
                    self.mirror.insert(index, value);
                },
                RoomDiff::PushFront { value } => {
                    update_room(&room, &value, effects, Ghost(done));
                    self.mirror.insert(0, value);
                    assert(self.mirror@ =~= seq![value] + old(self).mirror@);
                },
                RoomDiff::PushBack { value } => {
                    update_room(&room, &value, effects, Ghost(done));
                    self.mirror.push(value);
                },
                _ => {},
            }
        } else {
            remove_room(&room, effects, Ghost(done));
        }
    }

    /// Applies a batch of diffs, left to right, and returns the effects to perform, in
    /// order.
    pub fn apply_batch(&mut self, diffs: Vec<RoomDiff>) -> (effects: Vec<ReconcilerEffect>)
        ensures
            final(self).mirror@ == batch(old(self).mirror@, diffs@).0,
            realizes(effects@, batch(old(self).mirror@, diffs@).1),
    {
        let ghost target = batch(self.mirror@, diffs@);
        let mut pending = diffs;
        let mut effects: Vec<ReconcilerEffect> = Vec::new();
        let ghost mut done: Seq<EffectSpec> = Seq::empty();
        assert(done + target.1 =~= target.1);
        while pending.len() > 0
            invariant
                batch(self.mirror@, pending@).0 == target.0,
                done + batch(self.mirror@, pending@).1 == target.1,
                realizes(effects@, done),
            decreases pending@.len(),
        {
            let ghost m = self.mirror@;
            let ghost ps = pending@;
            let ghost mut x: Seq<EffectSpec> = Seq::empty();
            let d = pending.remove(0);
            assert(pending@ =~= ps.drop_first());
            match d {
                RoomDiff::Append { values } => {
                    proof {
                        x = adds_of(values@);
                    }
                    self.append_all(values, &mut effects, Ghost(done));
                },
                RoomDiff::Clear => {
                    self.pop_back_to(0, &mut effects, Ghost(done));
                    let ghost d1 = done + pops_from_back(m, 0);
                    emit(&mut effects, ReconcilerEffect::ClearSessions, Ghost(d1), Ghost(EffectSpec::ClearSessions));
                    emit(
                        &mut effects,
                        ReconcilerEffect::Enqueue(RoomsListUpdate::ClearRooms),
                        Ghost(d1.push(EffectSpec::ClearSessions)),
                        Ghost(EffectSpec::ClearRooms),
                    );
                    proof {
                        x = pops_from_back(m, 0) + seq![EffectSpec::ClearSessions, EffectSpec::ClearRooms];
                        assert(d1.push(EffectSpec::ClearSessions).push(EffectSpec::ClearRooms) =~= done + x);
                        assert(self.mirror@ =~= Seq::empty());
                    }
                },
                RoomDiff::PushFront { value } => {
                    proof {
                        x = add_effects(value);
                    }
                    add_room(&value, &mut effects, Ghost(done));
                    self.mirror.insert(0, value);
                    assert(self.mirror@ =~= seq![value] + m);
                },
                RoomDiff::PushBack { value } => {
                    proof {
                        x = add_effects(value);
                    }
                    add_room(&value, &mut effects, Ghost(done));
                    self.mirror.push(value);
                },
                RoomDiff::Insert { index, value } => {
                    if index <= self.mirror.len() {
                        proof {
                            x = add_effects(value);
                        }
                        add_room(&value, &mut effects, Ghost(done));
                        self.mirror.insert(index, value);
                    } else {
                        assert(done =~= done + x);
                    }
                },
                RoomDiff::SetValue { index, value } => {
                    if index < self.mirror.len() {
                        proof {
                            x = update_effects(m[index as int], value);
                        }
                        update_room(&self.mirror[index], &value, &mut effects, Ghost(done));
                        self.mirror.set(index, value);
                    } else {
                        assert(done =~= done + x);
                    }
                },
                RoomDiff::Truncate { length } => {
                    proof {
                        x = pops_from_back(m, length as nat);
                    }
                    self.pop_back_to(length, &mut effects, Ghost(done));
                },
                RoomDiff::Reset { values } => {
                    let ghost vs = values@;
                    self.pop_back_to(0, &mut effects, Ghost(done));
                    let ghost d1 = done + pops_from_back(m, 0);
                    emit(&mut effects, ReconcilerEffect::ClearSessions, Ghost(d1), Ghost(EffectSpec::ClearSessions));
                    emit(
                        &mut effects,
                        ReconcilerEffect::Enqueue(RoomsListUpdate::ClearRooms),
                        Ghost(d1.push(EffectSpec::ClearSessions)),
                        Ghost(EffectSpec::ClearRooms),
                    );
                    let ghost d2 = d1.push(EffectSpec::ClearSessions).push(EffectSpec::ClearRooms);
                    assert(self.mirror@ =~= Seq::empty());
                    self.append_all(values, &mut effects, Ghost(d2));
                    proof {
                        x = pops_from_back(m, 0) + seq![EffectSpec::ClearSessions, EffectSpec::ClearRooms]
                            + adds_of(vs);
                        assert(d2 + adds_of(vs) =~= done + x);
                        assert(self.mirror@ =~= vs);
                    }
                },
                RoomDiff::PopFront => {
                    if self.mirror.len() > 0 {
                        let room = self.mirror.remove(0);
                        let ghost r = room;
                        self.after_removal(room, &mut pending, &mut effects, Ghost(done));
                        proof {
                            let rest = ps.drop_first();
                            if rest.len() > 0 && reinsertion(m.remove(0), r, rest[0]) is Some {
                                x = update_effects(r, reinsertion(m.remove(0), r, rest[0]).unwrap().1);
                            } else {
                                x = remove_effects(r);
                            }
                        }
                    } else {
                        assert(done =~= done + x);
                    }
                },
                RoomDiff::PopBack => {
                    if self.mirror.len() > 0 {
                        let room = self.mirror.pop().unwrap();
                        assert(self.mirror@ =~= m.remove(m.len() - 1));
                        let ghost r = room;
                        self.after_removal(room, &mut pending, &mut effects, Ghost(done));
                        proof {
                            let rest = ps.drop_first();
                            let m1 = m.remove(m.len() - 1);
                            if rest.len() > 0 && reinsertion(m1, r, rest[0]) is Some {
                                x = update_effects(r, reinsertion(m1, r, rest[0]).unwrap().1);
                            } else {
                                x = remove_effects(r);
                            }
                        }
                    } else {
                        assert(done =~= done + x);
                    }
                },
                RoomDiff::Remove { index } => {
                    if index < self.mirror.len() {
                        let room = self.mirror.remove(index);
                        let ghost r = room;
                        self.after_removal(room, &mut pending, &mut effects, Ghost(done));
                        proof {
                            let rest = ps.drop_first();
                            let m1 = m.remove(index as int);
                            if rest.len() > 0 && reinsertion(m1, r, rest[0]) is Some {
                                x = update_effects(r, reinsertion(m1, r, rest[0]).unwrap().1);
                            } else {
                                x = remove_effects(r);
                            }
                        }
                    } else {
                        assert(done =~= done + x);
                    }
                },
            }
            proof {
                assert(batch(m, ps).0 == batch(self.mirror@, pending@).0);
                assert(batch(m, ps).1 =~= x + batch(self.mirror@, pending@).1);
                assert(done + batch(m, ps).1 =~= (done + x) + batch(self.mirror@, pending@).1);
                done = done + x;
            }
        }
        assert(done =~= target.1);
        effects
    }
}

} // verus!
