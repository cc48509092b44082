use vstd::prelude::*;
use crate::power_levels::UserPowerLevels;
use crate::room::{
    name_text, InviteState, InvitedRoomInfo, InviterInfo, JoinedRoomInfo, LatestEvent,
    RoomDisplayName, RoomHero, RoomState,
};
use crate::rooms_list::opt_view;

verus! {

/// A read-only snapshot of a room's state at the moment a diff referring to it was
/// produced. Snapshots are never changed: a changed room arrives as a new snapshot.
pub struct RoomSnapshot {
    pub room_id: String,
    pub state: RoomState,
    pub is_direct: bool,
    pub is_tombstoned: bool,
    /// The names of the room's tags, when they could be read.
    pub tags: Option<Vec<String>>,
    pub topic: Option<String>,
    /// The current user's powers in the room, when they could be read.
    pub user_power_levels: Option<UserPowerLevels>,
    pub num_unread_messages: u64,
    pub num_unread_mentions: u64,
    pub display_name: Option<RoomDisplayName>,
    pub room_avatar: Option<String>,
    pub heroes: Vec<RoomHero>,
    pub canonical_alias: Option<String>,
    pub alt_aliases: Vec<String>,
    /// The user ids that a direct room targets.
    pub direct_targets: Vec<String>,
    /// The preview of the room's latest message, if any.
    pub latest: Option<LatestEvent>,
    /// Who invited the user, for an invited room whose invite could be read.
    pub inviter: Option<InviterInfo>,
}

/// A display name seen through its variant and its text.
pub open spec fn name_view(n: RoomDisplayName) -> (u8, Seq<char>) {
    let tag: u8 = match n {
        RoomDisplayName::Named(_) => 0,
        RoomDisplayName::Aliased(_) => 1,
        RoomDisplayName::Calculated(_) => 2,
        RoomDisplayName::EmptyWas(_) => 3,
        RoomDisplayName::Empty => 4,
    };
    (tag, name_text(n))
}

pub open spec fn opt_name_view(n: Option<RoomDisplayName>) -> Option<(u8, Seq<char>)> {
    match n {
        Some(x) => Some(name_view(x)),
        None => None,
    }
}

/// The name a room is shown under: its display name, or `Empty` when unknown.
pub open spec fn shown_name_view(n: Option<RoomDisplayName>) -> (u8, Seq<char>) {
    match n {
        Some(x) => name_view(x),
        None => name_view(RoomDisplayName::Empty),
    }
}

pub open spec fn tags_view(t: Option<Vec<String>>) -> Option<Seq<Seq<char>>> {
    match t {
        Some(v) => Some(crate::text::views(v@)),
        None => None,
    }
}

/// The tags of a room, none when they could not be read.
pub open spec fn tags_or_default(t: Option<Vec<String>>) -> Seq<String> {
    match t {
        Some(v) => v@,
        None => Seq::empty(),
    }
}

/// The peer of a direct room with exactly one target.
pub open spec fn direct_user_of(s: RoomSnapshot) -> Option<Seq<char>> {
    if s.is_direct && s.direct_targets@.len() == 1 {
        Some(s.direct_targets@[0]@)
    } else {
        None
    }
}

/// `info` is the joined-room info built from snapshot `s`.
pub open spec fn joined_info_of(info: JoinedRoomInfo, s: RoomSnapshot) -> bool {
    &&& info.room_id@ == s.room_id@
    &&& name_view(info.room_name) == shown_name_view(s.display_name)
    &&& info.num_unread_messages == s.num_unread_messages
    &&& info.num_unread_mentions == s.num_unread_mentions
    &&& info.canonical_alias == s.canonical_alias
    &&& info.alt_aliases@ == s.alt_aliases@
    &&& info.tags@ == tags_or_default(s.tags)
    &&& info.topic == s.topic
    &&& info.latest == s.latest
    &&& info.avatar == s.room_avatar
    &&& !info.has_been_paginated
    &&& !info.is_selected
    &&& info.is_direct == s.is_direct
    &&& opt_view(info.direct_user_id) == direct_user_of(s)
    &&& info.is_tombstoned == s.is_tombstoned
    &&& info.heroes@ == s.heroes@
}

/// `info` is the invited-room info built from snapshot `s`.
pub open spec fn invited_info_of(info: InvitedRoomInfo, s: RoomSnapshot) -> bool {
    &&& info.room_id@ == s.room_id@
    &&& name_view(info.room_name) == shown_name_view(s.display_name)
    &&& info.inviter_info == s.inviter
    &&& info.room_avatar == s.room_avatar
    &&& info.canonical_alias == s.canonical_alias
    &&& info.alt_aliases@ == s.alt_aliases@
    &&& info.latest == s.latest
    &&& info.invite_state == InviteState::WaitingOnUserInput
    &&& info.is_direct == s.is_direct
}

pub fn clone_strings(v: &Vec<String>) -> (r: Vec<String>)
    ensures
        r@ == v@,
{
    let mut r: Vec<String> = Vec::new();
    let mut i: usize = 0;
    while i < v.len()
        invariant
            i <= v@.len(),
            r@ == v@.subrange(0, i as int),
        decreases v@.len() - i,
    {
        r.push(v[i].clone());
        assert(r@ =~= v@.subrange(0, i as int + 1));
        i = i + 1;
    }
    assert(v@.subrange(0, v@.len() as int) =~= v@);
    r
}

pub fn clone_opt_string(o: &Option<String>) -> (r: Option<String>)
    ensures
        r == *o,
{
    match o {
        Some(s) => Some(s.clone()),
        None => None,
    }
}

pub fn clone_name(n: &RoomDisplayName) -> (r: RoomDisplayName)
    ensures
        r == *n,
{
    match n {
        RoomDisplayName::Named(s) => RoomDisplayName::Named(s.clone()),
        RoomDisplayName::Aliased(s) => RoomDisplayName::Aliased(s.clone()),
        RoomDisplayName::Calculated(s) => RoomDisplayName::Calculated(s.clone()),
        RoomDisplayName::EmptyWas(s) => RoomDisplayName::EmptyWas(s.clone()),
        RoomDisplayName::Empty => RoomDisplayName::Empty,
    }
}

/// The name a room is shown under: its display name, or `Empty` when unknown.
pub fn shown_name(n: &Option<RoomDisplayName>) -> (r: RoomDisplayName)
    ensures
        name_view(r) == shown_name_view(*n),
{
    match n {
        Some(x) => clone_name(x),
        None => RoomDisplayName::Empty,
    }
}

pub fn clone_latest(l: &Option<LatestEvent>) -> (r: Option<LatestEvent>)
    ensures
        r == *l,
{
    match l {
        Some(e) => Some(LatestEvent { timestamp: e.timestamp, text: e.text.clone() }),
        None => None,
    }
}

pub fn clone_inviter(i: &Option<InviterInfo>) -> (r: Option<InviterInfo>)
    ensures
        r == *i,
{
    match i {
        Some(x) => Some(
            InviterInfo {
                user_id: x.user_id.clone(),
                display_name: clone_opt_string(&x.display_name),
                avatar: clone_opt_string(&x.avatar),
            },
        ),
        None => None,
    }
}

pub fn clone_heroes(v: &Vec<RoomHero>) -> (r: Vec<RoomHero>)
    ensures
        r@ == v@,
{
    let mut r: Vec<RoomHero> = Vec::new();
    let mut i: usize = 0;
    while i < v.len()
        invariant
            i <= v@.len(),
            r@ == v@.subrange(0, i as int),
        decreases v@.len() - i,
    {
        let h = &v[i];
        r.push(
            RoomHero {
                user_id: h.user_id.clone(),
                display_name: clone_opt_string(&h.display_name),
                avatar_url: clone_opt_string(&h.avatar_url),
            },
        );
        assert(r@ =~= v@.subrange(0, i as int + 1));
        i = i + 1;
    }
    assert(v@.subrange(0, v@.len() as int) =~= v@);
    r
}

/// The tags of a snapshot, none when they could not be read.
pub fn tags_or_empty(t: &Option<Vec<String>>) -> (r: Vec<String>)
    ensures
        r@ == tags_or_default(*t),
{
    match t {
        Some(v) => clone_strings(v),
        None => Vec::new(),
    }
}

/// The joined-room info shown for a snapshot.
pub fn joined_room_info(s: &RoomSnapshot) -> (r: JoinedRoomInfo)
    ensures
        joined_info_of(r, *s),
{
    let direct_user_id = if s.is_direct && s.direct_targets.len() == 1 {
        Some(s.direct_targets[0].clone())
    } else {
        None
    };
    JoinedRoomInfo {
        room_id: s.room_id.clone(),
        room_name: shown_name(&s.display_name),
        num_unread_messages: s.num_unread_messages,
        num_unread_mentions: s.num_unread_mentions,
        canonical_alias: clone_opt_string(&s.canonical_alias),
        alt_aliases: clone_strings(&s.alt_aliases),
        tags: tags_or_empty(&s.tags),
        topic: clone_opt_string(&s.topic),
        latest: clone_latest(&s.latest),
        avatar: clone_opt_string(&s.room_avatar),
        has_been_paginated: false,
        is_selected: false,
        is_direct: s.is_direct,
        direct_user_id,
        is_tombstoned: s.is_tombstoned,
        heroes: clone_heroes(&s.heroes),
    }
}

/// The invited-room info shown for a snapshot.
pub fn invited_room_info(s: &RoomSnapshot) -> (r: InvitedRoomInfo)
    ensures
        invited_info_of(r, *s),
{
    InvitedRoomInfo {
        room_id: s.room_id.clone(),
        room_name: shown_name(&s.display_name),
        inviter_info: clone_inviter(&s.inviter),
        room_avatar: clone_opt_string(&s.room_avatar),
        canonical_alias: clone_opt_string(&s.canonical_alias),
        alt_aliases: clone_strings(&s.alt_aliases),
        latest: clone_latest(&s.latest),
        invite_state: InviteState::WaitingOnUserInput,
        is_direct: s.is_direct,
    }
}

} // verus!
