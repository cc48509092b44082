use vstd::prelude::*;
use crate::display::{
    displayed_invited_spec, displayed_joined_spec, ecount, filtered_invited, filtered_joined,
    generate_displayed_invited_rooms, generate_displayed_joined_rooms, icount, invited_entry,
    joined_entry, lemma_distinct_of_count, lemma_entry_ids_count, lemma_icount_occurs,
    lemma_sort_count, lemma_split_count, passes, sort_by_latest, RoomDisplayFilter,
};
use crate::models::{ToastNotificationRequest, ToastNotificationVariant, UnreadMessageCount};
use crate::room::{
    name_text, status_kind, status_message, InvitedRoomInfo, JoinedRoomInfo, LatestEvent,
    RoomsCollectionStatus, RoomsListUpdate, StatusKind,
};
use crate::text::{
    decimal, decimal_of, distinct, index_of, lemma_distinct_push, lemma_distinct_remove, lemma_index_of,
    push_id, remove_first, remove_first_of, views,
};

verus! {

/// The ids of joined rooms, in store order.
pub open spec fn jids(s: Seq<JoinedRoomInfo>) -> Seq<Seq<char>> {
    s.map_values(|r: JoinedRoomInfo| r.room_id@)
}

/// The ids of invited rooms, in store order.
pub open spec fn iids(s: Seq<InvitedRoomInfo>) -> Seq<Seq<char>> {
    s.map_values(|r: InvitedRoomInfo| r.room_id@)
}

/// The status that counts the loaded rooms.
pub open spec fn count_status_kind(n: nat, max: Option<u32>) -> StatusKind {
    match max {
        Some(m) => if n == m as nat { StatusKind::Loaded } else { StatusKind::Loading },
        None => StatusKind::Loaded,
    }
}

pub open spec fn count_status_message(n: nat, max: Option<u32>) -> Seq<char> {
    match max {
        Some(m) => "Loaded "@ + decimal_of(n) + " of "@ + decimal_of(m as nat) + " total rooms."@,
        None => "Loaded "@ + decimal_of(n) + " rooms."@,
    }
}

/// The status that counts the rooms matching the filter keywords.
pub open spec fn matching_status_message(n: nat) -> Seq<char> {
    if n == 0 {
        "No matching rooms found."@
    } else if n == 1 {
        "Found 1 matching room."@
    } else {
        "Found "@ + decimal_of(n) + " matching rooms."@
    }
}

/// The rooms list as the contracts see it.
pub struct RoomsListView {
    pub invited: Seq<InvitedRoomInfo>,
    pub joined: Seq<JoinedRoomInfo>,
    /// The keywords of the display filter in force.
    pub filter: Seq<char>,
    /// The latest keywords entered by the user; they take effect at the end of a batch.
    pub keywords: Seq<char>,
    pub displayed_invited: Seq<Seq<char>>,
    pub displayed_direct: Seq<Seq<char>>,
    pub displayed_regular: Seq<Seq<char>>,
    pub status: StatusKind,
    pub status_message: Seq<char>,
    pub current_active_room: Option<Seq<char>>,
    pub max_known_rooms: Option<u32>,
}

/// The room store: invited and joined rooms (each keyed by room id, in insertion order),
/// the display filter, and the three ordered lists of displayed room ids.
pub struct RoomsList {
    pub invited_rooms: Vec<InvitedRoomInfo>,
    pub all_joined_rooms: Vec<JoinedRoomInfo>,
    pub display_filter: RoomDisplayFilter,
    pub filter_keywords: String,
    pub displayed_invited_rooms: Vec<String>,
    pub displayed_direct_rooms: Vec<String>,
    pub displayed_regular_rooms: Vec<String>,
    pub status: RoomsCollectionStatus,
    pub current_active_room: Option<String>,
    pub max_known_rooms: Option<u32>,
}

pub open spec fn opt_view(o: Option<String>) -> Option<Seq<char>> {
    match o {
        Some(s) => Some(s@),
        None => None,
    }
}

impl View for RoomsList {
    type V = RoomsListView;

    open spec fn view(&self) -> RoomsListView {
        RoomsListView {
            invited: self.invited_rooms@,
            joined: self.all_joined_rooms@,
            filter: self.display_filter.keywords@,
            keywords: self.filter_keywords@,
            displayed_invited: views(self.displayed_invited_rooms@),
            displayed_direct: views(self.displayed_direct_rooms@),
            displayed_regular: views(self.displayed_regular_rooms@),
            status: status_kind(self.status),
            status_message: status_message(self.status),
            current_active_room: opt_view(self.current_active_room),
            max_known_rooms: self.max_known_rooms,
        }
    }
}

/// The status recomputed from the number of loaded rooms.
pub open spec fn recount(v: RoomsListView) -> RoomsListView {
    let n = v.invited.len() + v.joined.len();
    RoomsListView {
        status: count_status_kind(n, v.max_known_rooms),
        status_message: count_status_message(n, v.max_known_rooms),
        ..v
    }
}

/// `v` with `id` taken out of the displayed direct or regular list.
pub open spec fn undisplay_joined(v: RoomsListView, id: Seq<char>, direct: bool) -> RoomsListView {
    if direct {
        RoomsListView { displayed_direct: remove_first(v.displayed_direct, id), ..v }
    } else {
        RoomsListView { displayed_regular: remove_first(v.displayed_regular, id), ..v }
    }
}

/// `v` with `id` appended to the displayed direct or regular list.
pub open spec fn display_joined(v: RoomsListView, id: Seq<char>, direct: bool) -> RoomsListView {
    if direct {
        RoomsListView { displayed_direct: v.displayed_direct.push(id), ..v }
    } else {
        RoomsListView { displayed_regular: v.displayed_regular.push(id), ..v }
    }
}

/// The joined room at `i` replaced by `r`, and its displayed membership adjusted to
/// whether the filter passes it before and after.
pub open spec fn replace_joined_shown(v: RoomsListView, i: int, r: JoinedRoomInfo) -> RoomsListView {
    let old_r = v.joined[i];
    let id = old_r.room_id@;
    let was = passes(v.filter, name_text(old_r.room_name), id);
    let should = passes(v.filter, name_text(r.room_name), id);
    let v1 = RoomsListView { joined: v.joined.update(i, r), ..v };
    if was && !should {
        undisplay_joined(v1, id, old_r.is_direct)
    } else if !was && should {
        display_joined(v1, id, old_r.is_direct)
    } else {
        v1
    }
}

/// What one update does to the rooms list.
pub open spec fn step(v: RoomsListView, u: RoomsListUpdate) -> RoomsListView {
    match u {
        RoomsListUpdate::AddInvitedRoom(info) => {
            let id = info.room_id@;
            let i = index_of(iids(v.invited), id);
            let v1 = if i >= 0 {
                RoomsListView { invited: v.invited.update(i, info), ..v }
            } else if passes(v.filter, name_text(info.room_name), id) {
                RoomsListView {
                    invited: v.invited.push(info),
                    displayed_invited: v.displayed_invited.push(id),
                    ..v
                }
            } else {
                RoomsListView { invited: v.invited.push(info), ..v }
            };
            // a room that becomes invited is no longer joined
            let j = index_of(jids(v1.joined), id);
            let v2 = if j >= 0 {
                undisplay_joined(RoomsListView { joined: v1.joined.remove(j), ..v1 }, id, v1.joined[j].is_direct)
            } else {
                v1
            };
            recount(v2)
        },
        RoomsListUpdate::AddJoinedRoom(info) => {
            let id = info.room_id@;
            let i = index_of(jids(v.joined), id);
            let v1 = if i >= 0 {
                RoomsListView { joined: v.joined.update(i, info), ..v }
            } else if passes(v.filter, name_text(info.room_name), id) {
                display_joined(RoomsListView { joined: v.joined.push(info), ..v }, id, info.is_direct)
            } else {
                RoomsListView { joined: v.joined.push(info), ..v }
            };
            let k = index_of(iids(v1.invited), id);
            let v2 = if k >= 0 {
                RoomsListView {
                    invited: v1.invited.remove(k),
                    displayed_invited: remove_first(v1.displayed_invited, id),
                    ..v1
                }
            } else {
                v1
            };
            recount(v2)
        },
        RoomsListUpdate::UpdateRoomAvatar { room_id, avatar } => {
            let i = index_of(jids(v.joined), room_id@);
            if i >= 0 {
                RoomsListView {
                    joined: v.joined.update(i, JoinedRoomInfo { avatar: Some(avatar), ..v.joined[i] }),
                    ..v
                }
            } else {
                v
            }
        },
        RoomsListUpdate::UpdateLatestEvent { room_id, timestamp, latest_message_text } => {
            let i = index_of(jids(v.joined), room_id@);
            if i >= 0 {
                RoomsListView {
                    joined: v.joined.update(
                        i,
                        JoinedRoomInfo {
                            latest: Some(LatestEvent { timestamp, text: latest_message_text }),
                            ..v.joined[i]
                        },
                    ),
                    ..v
                }
            } else {
                v
            }
        },
        RoomsListUpdate::UpdateNumUnreadMessages { room_id, unread_messages, unread_mentions } => {
            let i = index_of(jids(v.joined), room_id@);
            let (m, n) = match unread_messages {
                UnreadMessageCount::_Unknown => (0u64, 0u64),
                UnreadMessageCount::Known(c) => (c, unread_mentions),
            };
            if i >= 0 {
                RoomsListView {
                    joined: v.joined.update(
                        i,
                        JoinedRoomInfo { num_unread_messages: m, num_unread_mentions: n, ..v.joined[i] },
                    ),
                    ..v
                }
            } else {
                v
            }
        },
        RoomsListUpdate::UpdateRoomName { room_id, new_room_name } => {
            let id = room_id@;
            let i = index_of(jids(v.joined), id);
            let k = index_of(iids(v.invited), id);
            if i >= 0 {
                replace_joined_shown(v, i, JoinedRoomInfo { room_name: new_room_name, ..v.joined[i] })
            } else if k >= 0 {
                let old_r = v.invited[k];
                let was = passes(v.filter, name_text(old_r.room_name), id);
                let should = passes(v.filter, name_text(new_room_name), id);
                let v1 = RoomsListView {
                    invited: v.invited.update(k, InvitedRoomInfo { room_name: new_room_name, ..old_r }),
                    ..v
                };
                if was && !should {
                    RoomsListView { displayed_invited: remove_first(v1.displayed_invited, id), ..v1 }
                } else if !was && should {
                    RoomsListView { displayed_invited: v1.displayed_invited.push(id), ..v1 }
                } else {
                    v1
                }
            } else {
                v
            }
        },
        RoomsListUpdate::UpdateTopic { room_id, new_topic } => {
            let i = index_of(jids(v.joined), room_id@);
            if i >= 0 {
                RoomsListView {
                    joined: v.joined.update(i, JoinedRoomInfo { topic: Some(new_topic), ..v.joined[i] }),
                    ..v
                }
            } else {
                v
            }
        },
        RoomsListUpdate::UpdateIsDirect { room_id, is_direct } => {
            let id = room_id@;
            let i = index_of(jids(v.joined), id);
            if i >= 0 && v.joined[i].is_direct != is_direct {
                let r = v.joined[i];
                let shown = passes(v.filter, name_text(r.room_name), id);
                let v1 = if shown { undisplay_joined(v, id, r.is_direct) } else { v };
                let v2 = RoomsListView {
                    joined: v1.joined.update(i, JoinedRoomInfo { is_direct, ..r }),
                    ..v1
                };
                if shown { display_joined(v2, id, is_direct) } else { v2 }
            } else {
                v
            }
        },
        RoomsListUpdate::RemoveRoom { room_id, new_state } => {
            let id = room_id@;
            let i = index_of(jids(v.joined), id);
            let k = index_of(iids(v.invited), id);
            let v1 = if i >= 0 {
                undisplay_joined(RoomsListView { joined: v.joined.remove(i), ..v }, id, v.joined[i].is_direct)
            } else if k >= 0 {
                RoomsListView {
                    invited: v.invited.remove(k),
                    displayed_invited: remove_first(v.displayed_invited, id),
                    ..v
                }
            } else {
                v
            };
            recount(v1)
        },
        RoomsListUpdate::ClearRooms => recount(
            RoomsListView {
                invited: Seq::empty(),
                joined: Seq::empty(),
                displayed_invited: Seq::empty(),
                displayed_direct: Seq::empty(),
                displayed_regular: Seq::empty(),
                ..v
            },
        ),
        RoomsListUpdate::NotLoaded => RoomsListView {
            status: StatusKind::Loading,
            status_message: "Loading rooms (waiting for homeserver)..."@,
            ..v
        },
        RoomsListUpdate::LoadedRooms { max_rooms } => recount(
            RoomsListView { max_known_rooms: max_rooms, ..v },
        ),
        RoomsListUpdate::Tags { room_id, new_tags } => {
            let i = index_of(jids(v.joined), room_id@);
            if i >= 0 {
                RoomsListView {
                    joined: v.joined.update(i, JoinedRoomInfo { tags: new_tags, ..v.joined[i] }),
                    ..v
                }
            } else {
                v
            }
        },
        RoomsListUpdate::Status { status } => RoomsListView {
            status: status_kind(status),
            status_message: status_message(status),
            ..v
        },
        RoomsListUpdate::TombstonedRoom { room_id } => {
            let i = index_of(jids(v.joined), room_id@);
            if i >= 0 {
                replace_joined_shown(v, i, JoinedRoomInfo { is_tombstoned: true, ..v.joined[i] })
            } else {
                v
            }
        },
        RoomsListUpdate::ApplyFilter { keywords } => RoomsListView { keywords: keywords@, ..v },
    }
}


/// The store is valid: each of the invited and joined stores holds an id once, and no id
/// is both invited and joined.
pub open spec fn wf(v: RoomsListView) -> bool {
    &&& distinct(iids(v.invited))
    &&& distinct(jids(v.joined))
    &&& forall|i: int, j: int|
        0 <= i < v.invited.len() && 0 <= j < v.joined.len() ==> #[trigger] v.invited[i].room_id@
            != #[trigger] v.joined[j].room_id@
}

proof fn lemma_jids_update(s: Seq<JoinedRoomInfo>, i: int, r: JoinedRoomInfo)
    requires
        0 <= i < s.len(),
        r.room_id@ == s[i].room_id@,
    ensures
        jids(s.update(i, r)) == jids(s),
{
    assert(jids(s.update(i, r)) =~= jids(s));
}

proof fn lemma_iids_update(s: Seq<InvitedRoomInfo>, i: int, r: InvitedRoomInfo)
    requires
        0 <= i < s.len(),
        r.room_id@ == s[i].room_id@,
    ensures
        iids(s.update(i, r)) == iids(s),
{
    assert(iids(s.update(i, r)) =~= iids(s));
}

proof fn lemma_jids_remove(s: Seq<JoinedRoomInfo>, i: int)
    requires
        0 <= i < s.len(),
    ensures
        jids(s.remove(i)) == jids(s).remove(i),
{
    assert(jids(s.remove(i)) =~= jids(s).remove(i));
}

proof fn lemma_iids_remove(s: Seq<InvitedRoomInfo>, i: int)
    requires
        0 <= i < s.len(),
    ensures
        iids(s.remove(i)) == iids(s).remove(i),
{
    assert(iids(s.remove(i)) =~= iids(s).remove(i));
}

/// A joined room updated in place keeps the store valid.
proof fn lemma_wf_joined_update(v: RoomsListView, i: int, r: JoinedRoomInfo)
    requires
        wf(v),
        0 <= i < v.joined.len(),
        r.room_id@ == v.joined[i].room_id@,
    ensures
        wf(RoomsListView { joined: v.joined.update(i, r), ..v }),
{
    lemma_jids_update(v.joined, i, r);
    let n = v.joined.update(i, r);
    assert forall|a: int, b: int| 0 <= a < v.invited.len() && 0 <= b < n.len() implies #[trigger] v.invited[a].room_id@
        != #[trigger] n[b].room_id@ by {
        assert(n[b].room_id@ == v.joined[b].room_id@);
    }
}

/// Adding an invited room, then dropping the joined entry with its id, keeps the store valid.
proof fn lemma_wf_add_invited(v: RoomsListView, info: InvitedRoomInfo)
    requires
        wf(v),
    ensures
        ({
            let id = info.room_id@;
            let i = index_of(iids(v.invited), id);
            let inv = if i >= 0 { v.invited.update(i, info) } else { v.invited.push(info) };
            let j = index_of(jids(v.joined), id);
            let jn = if j >= 0 { v.joined.remove(j) } else { v.joined };
            wf(RoomsListView { invited: inv, joined: jn, ..v })
        }),
{
    let id = info.room_id@;
    lemma_index_of(iids(v.invited), id);
    lemma_index_of(jids(v.joined), id);
    let i = index_of(iids(v.invited), id);
    let inv = if i >= 0 { v.invited.update(i, info) } else { v.invited.push(info) };
    let j = index_of(jids(v.joined), id);
    let jn = if j >= 0 { v.joined.remove(j) } else { v.joined };
    if i >= 0 {
        lemma_iids_update(v.invited, i, info);
    } else {
        assert(iids(inv) =~= iids(v.invited).push(id));
        lemma_distinct_push(iids(v.invited), id);
    }
    if j >= 0 {
        lemma_jids_remove(v.joined, j);
        lemma_distinct_remove(jids(v.joined), j);
    }
    assert forall|a: int, b: int| 0 <= a < inv.len() && 0 <= b < jn.len() implies #[trigger] inv[a].room_id@
        != #[trigger] jn[b].room_id@ by {
        let b1 = if j >= 0 && b >= j { b + 1 } else { b };
        assert(jn[b] == v.joined[b1]);
        assert(jids(v.joined)[b1] == v.joined[b1].room_id@);
        if inv[a].room_id@ == id {
            if j >= 0 {
                assert(b1 != j);
                assert(jids(v.joined)[j] == id);
                if b1 < j {
                    assert(jids(v.joined)[b1] != jids(v.joined)[j]);
                } else {
                    assert(jids(v.joined)[j] != jids(v.joined)[b1]);
                }
            }
        } else {
            assert(a < v.invited.len() && inv[a] == v.invited[a]);
            assert(v.invited[a].room_id@ != v.joined[b1].room_id@);
        }
    }
}

/// Adding a joined room, then dropping the invited entry with its id, keeps the store valid.
proof fn lemma_wf_add_joined(v: RoomsListView, info: JoinedRoomInfo)
    requires
        wf(v),
    ensures
        ({
            let id = info.room_id@;
            let i = index_of(jids(v.joined), id);
            let jn = if i >= 0 { v.joined.update(i, info) } else { v.joined.push(info) };
            let k = index_of(iids(v.invited), id);
            let inv = if k >= 0 { v.invited.remove(k) } else { v.invited };
            wf(RoomsListView { invited: inv, joined: jn, ..v })
        }),
{
    let id = info.room_id@;
    lemma_index_of(iids(v.invited), id);
    lemma_index_of(jids(v.joined), id);
    let i = index_of(jids(v.joined), id);
    let jn = if i >= 0 { v.joined.update(i, info) } else { v.joined.push(info) };
    let k = index_of(iids(v.invited), id);
    let inv = if k >= 0 { v.invited.remove(k) } else { v.invited };
    if i >= 0 {
        lemma_jids_update(v.joined, i, info);
    } else {
        assert(jids(jn) =~= jids(v.joined).push(id));
        lemma_distinct_push(jids(v.joined), id);
    }
    if k >= 0 {
        lemma_iids_remove(v.invited, k);
        lemma_distinct_remove(iids(v.invited), k);
    }
    assert forall|a: int, b: int| 0 <= a < inv.len() && 0 <= b < jn.len() implies #[trigger] inv[a].room_id@
        != #[trigger] jn[b].room_id@ by {
        let a1 = if k >= 0 && a >= k { a + 1 } else { a };
        assert(inv[a] == v.invited[a1]);
        assert(iids(v.invited)[a1] == v.invited[a1].room_id@);
        if jn[b].room_id@ == id {
            if k >= 0 {
                assert(a1 != k);
                assert(iids(v.invited)[k] == id);
                if a1 < k {
                    assert(iids(v.invited)[a1] != iids(v.invited)[k]);
                } else {
                    assert(iids(v.invited)[k] != iids(v.invited)[a1]);
                }
            }
        } else {
            assert(b < v.joined.len() && jn[b] == v.joined[b]);
            assert(v.invited[a1].room_id@ != v.joined[b].room_id@);
        }
    }
}

/// Law: every update keeps the store valid: no id is held twice by either store, and no
/// id is both invited and joined.
pub proof fn lemma_step_wf(v: RoomsListView, u: RoomsListUpdate)
    requires
        wf(v),
    ensures
        wf(step(v, u)),
{
    match u {
        RoomsListUpdate::AddInvitedRoom(info) => {
            lemma_wf_add_invited(v, info);
        },
        RoomsListUpdate::AddJoinedRoom(info) => {
            lemma_wf_add_joined(v, info);
        },
        RoomsListUpdate::UpdateRoomAvatar { room_id, avatar } => {
            let i = index_of(jids(v.joined), room_id@);
            lemma_index_of(jids(v.joined), room_id@);
            if i >= 0 {
                lemma_wf_joined_update(v, i, JoinedRoomInfo { avatar: Some(avatar), ..v.joined[i] });
            }
        },
        RoomsListUpdate::UpdateLatestEvent { room_id, timestamp, latest_message_text } => {
            let i = index_of(jids(v.joined), room_id@);
            lemma_index_of(jids(v.joined), room_id@);
            if i >= 0 {
                lemma_wf_joined_update(
                    v,
                    i,
                    JoinedRoomInfo {
                        latest: Some(LatestEvent { timestamp, text: latest_message_text }),
                        ..v.joined[i]
                    },
                );
            }
        },
        RoomsListUpdate::UpdateNumUnreadMessages { room_id, unread_messages, unread_mentions } => {
            let i = index_of(jids(v.joined), room_id@);
            lemma_index_of(jids(v.joined), room_id@);
            let (m, n) = match unread_messages {
                UnreadMessageCount::_Unknown => (0u64, 0u64),
                UnreadMessageCount::Known(c) => (c, unread_mentions),
            };
            if i >= 0 {
                lemma_wf_joined_update(
                    v,
                    i,
                    JoinedRoomInfo { num_unread_messages: m, num_unread_mentions: n, ..v.joined[i] },
                );
            }
        },
        RoomsListUpdate::UpdateRoomName { room_id, new_room_name } => {
            let id = room_id@;
            let i = index_of(jids(v.joined), id);
            let k = index_of(iids(v.invited), id);
            lemma_index_of(jids(v.joined), id);
            lemma_index_of(iids(v.invited), id);
            if i >= 0 {
                lemma_wf_joined_update(v, i, JoinedRoomInfo { room_name: new_room_name, ..v.joined[i] });
            } else if k >= 0 {
                let r = InvitedRoomInfo { room_name: new_room_name, ..v.invited[k] };
                lemma_iids_update(v.invited, k, r);
                let n = v.invited.update(k, r);
                assert forall|a: int, b: int| 0 <= a < n.len() && 0 <= b < v.joined.len() implies #[trigger] n[a].room_id@
                    != #[trigger] v.joined[b].room_id@ by {
                    assert(n[a].room_id@ == v.invited[a].room_id@);
                }
            }
        },
        RoomsListUpdate::UpdateTopic { room_id, new_topic } => {
            let i = index_of(jids(v.joined), room_id@);
            lemma_index_of(jids(v.joined), room_id@);
            if i >= 0 {
                lemma_wf_joined_update(v, i, JoinedRoomInfo { topic: Some(new_topic), ..v.joined[i] });
            }
        },
        RoomsListUpdate::UpdateIsDirect { room_id, is_direct } => {
            let i = index_of(jids(v.joined), room_id@);
            lemma_index_of(jids(v.joined), room_id@);
            if i >= 0 && v.joined[i].is_direct != is_direct {
                lemma_wf_joined_update(v, i, JoinedRoomInfo { is_direct, ..v.joined[i] });
            }
        },
        RoomsListUpdate::RemoveRoom { room_id, new_state } => {
            let id = room_id@;
            let i = index_of(jids(v.joined), id);
            let k = index_of(iids(v.invited), id);
            lemma_index_of(jids(v.joined), id);
            lemma_index_of(iids(v.invited), id);
            if i >= 0 {
                lemma_jids_remove(v.joined, i);
                lemma_distinct_remove(jids(v.joined), i);
                let n = v.joined.remove(i);
                assert forall|a: int, b: int| 0 <= a < v.invited.len() && 0 <= b < n.len() implies #[trigger] v.invited[a].room_id@
                    != #[trigger] n[b].room_id@ by {
                    let b1 = if b >= i { b + 1 } else { b };
                    assert(n[b] == v.joined[b1]);
                }
            } else if k >= 0 {
                lemma_iids_remove(v.invited, k);
                lemma_distinct_remove(iids(v.invited), k);
                let n = v.invited.remove(k);
                assert forall|a: int, b: int| 0 <= a < n.len() && 0 <= b < v.joined.len() implies #[trigger] n[a].room_id@
                    != #[trigger] v.joined[b].room_id@ by {
                    let a1 = if a >= k { a + 1 } else { a };
                    assert(n[a] == v.invited[a1]);
                }
            }
        },
        RoomsListUpdate::ClearRooms => {
            assert(iids(Seq::<InvitedRoomInfo>::empty()) =~= Seq::empty());
            assert(jids(Seq::<JoinedRoomInfo>::empty()) =~= Seq::empty());
        },
        RoomsListUpdate::Tags { room_id, new_tags } => {
            let i = index_of(jids(v.joined), room_id@);
            lemma_index_of(jids(v.joined), room_id@);
            if i >= 0 {
                lemma_wf_joined_update(v, i, JoinedRoomInfo { tags: new_tags, ..v.joined[i] });
            }
        },
        RoomsListUpdate::TombstonedRoom { room_id } => {
            let i = index_of(jids(v.joined), room_id@);
            lemma_index_of(jids(v.joined), room_id@);
            if i >= 0 {
                lemma_wf_joined_update(v, i, JoinedRoomInfo { is_tombstoned: true, ..v.joined[i] });
            }
        },
        _ => {},
    }
}

/// Every sequence of updates keeps the store valid.
pub proof fn lemma_steps_wf(v: RoomsListView, us: Seq<RoomsListUpdate>)
    requires
        wf(v),
    ensures
        wf(steps(v, us)),
    decreases us.len(),
{
    if us.len() > 0 {
        lemma_steps_wf(v, us.drop_last());
        lemma_step_wf(steps(v, us.drop_last()), us.last());
    }
}


proof fn lemma_icount_absent(s: Seq<Seq<char>>, x: Seq<char>)
    requires
        forall|k: int| 0 <= k < s.len() ==> s[k] != x,
    ensures
        icount(s, x) == 0,
    decreases s.len(),
{
    if s.len() > 0 {
        lemma_icount_absent(s.drop_last(), x);
    }
}

proof fn lemma_distinct_count(s: Seq<Seq<char>>, x: Seq<char>)
    requires
        distinct(s),
    ensures
        icount(s, x) <= 1,
    decreases s.len(),
{
    if s.len() > 0 {
        let d = s.drop_last();
        assert(distinct(d));
        lemma_distinct_count(d, x);
        if s.last() == x {
            assert forall|k: int| 0 <= k < d.len() implies d[k] != x by {
                assert(s[k] != s[s.len() - 1]);
            }
            lemma_icount_absent(d, x);
        }
    }
}

proof fn lemma_filtered_joined_le(s: Seq<JoinedRoomInfo>, kw: Seq<char>, x: Seq<char>)
    ensures
        ecount(filtered_joined(s, kw), x) <= icount(jids(s), x),
    decreases s.len(),
{
    if s.len() > 0 {
        lemma_filtered_joined_le(s.drop_last(), kw, x);
        assert(jids(s).drop_last() =~= jids(s.drop_last()));
        let r = filtered_joined(s.drop_last(), kw);
        assert(r.push(joined_entry(s.last())).drop_last() =~= r);
    }
}

proof fn lemma_filtered_invited_le(s: Seq<InvitedRoomInfo>, kw: Seq<char>, x: Seq<char>)
    ensures
        ecount(filtered_invited(s, kw), x) <= icount(iids(s), x),
    decreases s.len(),
{
    if s.len() > 0 {
        lemma_filtered_invited_le(s.drop_last(), kw, x);
        assert(iids(s).drop_last() =~= iids(s.drop_last()));
        let r = filtered_invited(s.drop_last(), kw);
        assert(r.push(invited_entry(s.last())).drop_last() =~= r);
    }
}

/// The display lists are sound: none holds an id twice, and no room is listed both as
/// direct and as regular.
pub open spec fn display_wf(v: RoomsListView) -> bool {
    &&& distinct(v.displayed_invited)
    &&& distinct(v.displayed_direct)
    &&& distinct(v.displayed_regular)
    &&& forall|i: int, j: int|
        0 <= i < v.displayed_direct.len() && 0 <= j < v.displayed_regular.len() ==> #[trigger] v.displayed_direct[i]
            != #[trigger] v.displayed_regular[j]
}

/// Law: recomputing the display lists of a valid store gives sound lists.
pub proof fn lemma_refresh_display_wf(v: RoomsListView)
    requires
        wf(v),
    ensures
        display_wf(refresh(v)),
{
    let r = refresh(v);
    let sj = sort_by_latest(filtered_joined(v.joined, v.keywords));
    let si = sort_by_latest(filtered_invited(v.invited, v.keywords));
    assert forall|x: Seq<char>| icount(r.displayed_direct, x) + icount(r.displayed_regular, x) <= 1
        && icount(r.displayed_direct, x) >= 0 && icount(r.displayed_regular, x) >= 0 by {
        lemma_split_count(sj, x);
        lemma_sort_count(filtered_joined(v.joined, v.keywords), x);
        lemma_filtered_joined_le(v.joined, v.keywords, x);
        lemma_distinct_count(jids(v.joined), x);
    }
    assert forall|x: Seq<char>| icount(r.displayed_invited, x) <= 1 by {
        lemma_entry_ids_count(si, x);
        lemma_sort_count(filtered_invited(v.invited, v.keywords), x);
        lemma_filtered_invited_le(v.invited, v.keywords, x);
        lemma_distinct_count(iids(v.invited), x);
    }
    lemma_distinct_of_count(r.displayed_invited);
    lemma_distinct_of_count(r.displayed_direct);
    lemma_distinct_of_count(r.displayed_regular);
    assert forall|i: int, j: int|
        0 <= i < r.displayed_direct.len() && 0 <= j < r.displayed_regular.len() implies #[trigger] r.displayed_direct[i]
            != #[trigger] r.displayed_regular[j] by {
        if r.displayed_direct[i] == r.displayed_regular[j] {
            let x = r.displayed_direct[i];
            lemma_icount_occurs(r.displayed_direct, i, i);
            lemma_icount_occurs(r.displayed_regular, j, j);
        }
    }
}

/// The room whose frontend store must be created after an update: a newly added joined
/// room that the filter shows.
pub open spec fn store_request(v: RoomsListView, u: RoomsListUpdate) -> Option<Seq<char>> {
    match u {
        RoomsListUpdate::AddJoinedRoom(info) => {
            let id = info.room_id@;
            if index_of(jids(v.joined), id) < 0 && passes(v.filter, name_text(info.room_name), id) {
                Some(id)
            } else {
                None
            }
        },
        _ => None,
    }
}

pub open spec fn kind_word(direct: bool) -> Seq<char> {
    if direct { "direct"@ } else { "regular"@ }
}

/// The notice shown after an update: a joined room that changed between direct and regular.
pub open spec fn toast_message(v: RoomsListView, u: RoomsListUpdate) -> Option<Seq<char>> {
    match u {
        RoomsListUpdate::UpdateIsDirect { room_id, is_direct } => {
            let i = index_of(jids(v.joined), room_id@);
            if i >= 0 && v.joined[i].is_direct != is_direct {
                Some(v.joined[i].room_id@ + " was changed from "@ + kind_word(v.joined[i].is_direct)
                    + " to "@ + kind_word(is_direct) + "."@)
            } else {
                None
            }
        },
        _ => None,
    }
}

/// The display lists and the status recomputed from the current keywords.
pub open spec fn refresh(v: RoomsListView) -> RoomsListView {
    let di = displayed_invited_spec(v.invited, v.keywords);
    let dd = displayed_joined_spec(v.joined, v.keywords, true);
    let dr = displayed_joined_spec(v.joined, v.keywords, false);
    let v1 = RoomsListView {
        filter: v.keywords,
        displayed_invited: di,
        displayed_direct: dd,
        displayed_regular: dr,
        ..v
    };
    if v.keywords.len() == 0 {
        recount(v1)
    } else {
        RoomsListView {
            status: StatusKind::Loaded,
            status_message: matching_status_message(di.len() + dd.len() + dr.len()),
            ..v1
        }
    }
}

/// The updates applied one after the other.
pub open spec fn steps(v: RoomsListView, us: Seq<RoomsListUpdate>) -> RoomsListView
    decreases us.len(),
{
    if us.len() == 0 {
        v
    } else {
        step(steps(v, us.drop_last()), us.last())
    }
}

pub open spec fn opt_to_seq(o: Option<Seq<char>>) -> Seq<Seq<char>> {
    match o {
        Some(x) => seq![x],
        None => Seq::empty(),
    }
}

/// The frontend-store requests made while applying the updates, in order.
pub open spec fn store_requests(v: RoomsListView, us: Seq<RoomsListUpdate>) -> Seq<Seq<char>>
    decreases us.len(),
{
    if us.len() == 0 {
        Seq::empty()
    } else {
        store_requests(v, us.drop_last()) + opt_to_seq(store_request(steps(v, us.drop_last()), us.last()))
    }
}

/// The notices shown while applying the updates, in order.
pub open spec fn toast_messages(v: RoomsListView, us: Seq<RoomsListUpdate>) -> Seq<Seq<char>>
    decreases us.len(),
{
    if us.len() == 0 {
        Seq::empty()
    } else {
        toast_messages(v, us.drop_last()) + opt_to_seq(toast_message(steps(v, us.drop_last()), us.last()))
    }
}

/// A change to a joined room that may change whether it is displayed.
enum JoinedChange {
    Name(crate::room::RoomDisplayName),
    Tombstone,
}

/// A change to a field of a joined room that does not affect its display.
enum JoinedField {
    Avatar(String),
    Latest(LatestEvent),
    Unread(u64, u64),
    Topic(String),
    Tags(Vec<String>),
}

spec fn apply_field(r: JoinedRoomInfo, f: JoinedField) -> JoinedRoomInfo {
    match f {
        JoinedField::Avatar(a) => JoinedRoomInfo { avatar: Some(a), ..r },
        JoinedField::Latest(l) => JoinedRoomInfo { latest: Some(l), ..r },
        JoinedField::Unread(m, n) => JoinedRoomInfo { num_unread_messages: m, num_unread_mentions: n, ..r },
        JoinedField::Topic(t) => JoinedRoomInfo { topic: Some(t), ..r },
        JoinedField::Tags(t) => JoinedRoomInfo { tags: t, ..r },
    }
}

spec fn apply_change(r: JoinedRoomInfo, c: JoinedChange) -> JoinedRoomInfo {
    match c {
        JoinedChange::Name(n) => JoinedRoomInfo { room_name: n, ..r },
        JoinedChange::Tombstone => JoinedRoomInfo { is_tombstoned: true, ..r },
    }
}

/// What a batch of updates asks of the outside: frontend stores to create, notices to
/// show, and whether to push one new snapshot of the rooms list to the UI.
pub struct RoomsListOutcome {
    pub store_requests: Vec<String>,
    pub toasts: Vec<ToastNotificationRequest>,
    pub push_state: bool,
}

/// What the active-room manager must do.
#[derive(Clone, Copy, Debug, PartialEq, Eq, Structural)]
pub enum ActiveRoomAction {
    /// The room is already the active one.
    Unchanged,
    /// Start a consumer for the new room, first cancelling the previous one if there is one.
    Switch { cancel_previous: bool },
}


impl RoomsList {
    pub fn new() -> (r: Self)
        ensures
            r@.invited.len() == 0,
            r@.joined.len() == 0,
            r@.filter.len() == 0,
            r@.keywords.len() == 0,
            r@.displayed_invited.len() == 0,
            r@.displayed_direct.len() == 0,
            r@.displayed_regular.len() == 0,
            r@.status == StatusKind::NotLoaded,
            r@.status_message == "Initiating"@,
            r@.current_active_room is None,
            r@.max_known_rooms is None,
            wf(r@),
    {
        let r = RoomsList {
            invited_rooms: Vec::new(),
            all_joined_rooms: Vec::new(),
            display_filter: RoomDisplayFilter::default_filter(),
            filter_keywords: String::new(),
            displayed_invited_rooms: Vec::new(),
            displayed_direct_rooms: Vec::new(),
            displayed_regular_rooms: Vec::new(),
            status: RoomsCollectionStatus::NotLoaded(String::from_str("Initiating")),
            current_active_room: None,
            max_known_rooms: None,
        };
        assert(views(r.displayed_invited_rooms@) =~= Seq::empty());
        assert(views(r.displayed_direct_rooms@) =~= Seq::empty());
        assert(views(r.displayed_regular_rooms@) =~= Seq::empty());
        assert(iids(r.invited_rooms@) =~= Seq::empty());
        assert(jids(r.all_joined_rooms@) =~= Seq::empty());
        r
    }

    /// The position of a joined room in the store.
    pub fn joined_index(&self, id: &String) -> (r: Option<usize>)
        ensures
            r is None <==> index_of(jids(self.all_joined_rooms@), id@) < 0,
            r is Some ==> r.unwrap() as int == index_of(jids(self.all_joined_rooms@), id@),
            r is Some ==> r.unwrap() < self.all_joined_rooms@.len(),
    {
        let ghost s = jids(self.all_joined_rooms@);
        proof {
            lemma_index_of(s, id@);
        }
        let mut j: usize = 0;
        while j < self.all_joined_rooms.len()
            invariant
                s == jids(self.all_joined_rooms@),
                j <= self.all_joined_rooms@.len(),
                index_of(s, id@) == crate::text::index_from(s, id@, j as int),
            decreases self.all_joined_rooms@.len() - j,
        {
            if self.all_joined_rooms[j].room_id == *id {
                return Some(j);
            }
            j = j + 1;
        }
        None
    }

    /// The position of an invited room in the store.
    pub fn invited_index(&self, id: &String) -> (r: Option<usize>)
        ensures
            r is None <==> index_of(iids(self.invited_rooms@), id@) < 0,
            r is Some ==> r.unwrap() as int == index_of(iids(self.invited_rooms@), id@),
            r is Some ==> r.unwrap() < self.invited_rooms@.len(),
    {
        let ghost s = iids(self.invited_rooms@);
        proof {
            lemma_index_of(s, id@);
        }
        let mut j: usize = 0;
        while j < self.invited_rooms.len()
            invariant
                s == iids(self.invited_rooms@),
                j <= self.invited_rooms@.len(),
                index_of(s, id@) == crate::text::index_from(s, id@, j as int),
            decreases self.invited_rooms@.len() - j,
        {
            if self.invited_rooms[j].room_id == *id {
                return Some(j);
            }
            j = j + 1;
        }
        None
    }

    /// Updates the status message to show how many rooms have been loaded.
    fn update_status_rooms_count(&mut self)
        ensures
            final(self)@ == recount(old(self)@),
    {
        let n: u128 = self.all_joined_rooms.len() as u128 + self.invited_rooms.len() as u128;
        match self.max_known_rooms {
            Some(m) => {
                let msg = String::from_str("Loaded ").concat(decimal(n).as_str()).concat(
                    " of ",
                ).concat(decimal(m as u128).as_str()).concat(" total rooms.");
                if n == m as u128 {
                    self.status = RoomsCollectionStatus::Loaded(msg);
                } else {
                    self.status = RoomsCollectionStatus::Loading(msg);
                }
            },
            None => {
                let msg = String::from_str("Loaded ").concat(decimal(n).as_str()).concat(
                    " rooms.",
                );
                self.status = RoomsCollectionStatus::Loaded(msg);
            },
        }
    }

    /// Updates the status message to show how many displayed rooms match the filter.
    fn set_status_to_matching_rooms(&mut self)
        ensures
            final(self)@ == (RoomsListView {
                status: StatusKind::Loaded,
                status_message: matching_status_message(
                    old(self)@.displayed_invited.len() + old(self)@.displayed_direct.len()
                        + old(self)@.displayed_regular.len(),
                ),
                ..old(self)@
            }),
    {
        let n: u128 = self.displayed_invited_rooms.len() as u128
            + self.displayed_direct_rooms.len() as u128 + self.displayed_regular_rooms.len() as u128;
        let msg = if n == 0 {
            String::from_str("No matching rooms found.")
        } else if n == 1 {
            String::from_str("Found 1 matching room.")
        } else {
            String::from_str("Found ").concat(decimal(n).as_str()).concat(" matching rooms.")
        };
        self.status = RoomsCollectionStatus::Loaded(msg);
    }

    /// Rebuilds the display filter from the current keywords and recomputes the lists of
    /// displayed rooms and the status.
    fn update_displayed_rooms(&mut self)
        ensures
            final(self)@ == refresh(old(self)@),
    {
        self.display_filter = RoomDisplayFilter::with_keywords(&self.filter_keywords);
        self.displayed_invited_rooms = generate_displayed_invited_rooms(
            &self.invited_rooms,
            &self.display_filter,
        );
        let (regular, direct) = generate_displayed_joined_rooms(
            &self.all_joined_rooms,
            &self.display_filter,
        );
        self.displayed_regular_rooms = regular;
        self.displayed_direct_rooms = direct;
        if self.filter_keywords.as_str().unicode_len() == 0 {
            self.update_status_rooms_count();
        } else {
            self.set_status_to_matching_rooms();
        }
    }
}


impl RoomsList {
    /// Takes `id` out of the displayed direct or regular list.
    fn undisplay_joined_exec(&mut self, id: &String, direct: bool)
        ensures
            final(self)@ == undisplay_joined(old(self)@, id@, direct),
    {
        if direct {
            remove_first_of(&mut self.displayed_direct_rooms, id);
        } else {
            remove_first_of(&mut self.displayed_regular_rooms, id);
        }
    }

    /// Appends `id` to the displayed direct or regular list.
    fn display_joined_exec(&mut self, id: String, direct: bool)
        ensures
            final(self)@ == display_joined(old(self)@, id@, direct),
    {
        if direct {
            push_id(&mut self.displayed_direct_rooms, id);
        } else {
            push_id(&mut self.displayed_regular_rooms, id);
        }
    }

    /// Takes the joined room at `i` out of the store.
    fn take_joined(&mut self, i: usize) -> (r: JoinedRoomInfo)
        requires
            i < old(self).all_joined_rooms@.len(),
        ensures
            r == old(self).all_joined_rooms@[i as int],
            final(self).all_joined_rooms@ == old(self).all_joined_rooms@.remove(i as int),
            final(self).invited_rooms == old(self).invited_rooms,
            final(self).display_filter == old(self).display_filter,
            final(self).filter_keywords == old(self).filter_keywords,
            final(self).displayed_invited_rooms == old(self).displayed_invited_rooms,
            final(self).displayed_direct_rooms == old(self).displayed_direct_rooms,
            final(self).displayed_regular_rooms == old(self).displayed_regular_rooms,
            final(self).status == old(self).status,
            final(self).current_active_room == old(self).current_active_room,
            final(self).max_known_rooms == old(self).max_known_rooms,
    {
        self.all_joined_rooms.remove(i)
    }

    /// Puts a joined room back at `i`.
    fn put_joined(&mut self, i: usize, r: JoinedRoomInfo)
        requires
            i <= old(self).all_joined_rooms@.len(),
        ensures
            final(self).all_joined_rooms@ == old(self).all_joined_rooms@.insert(i as int, r),
            final(self).invited_rooms == old(self).invited_rooms,
            final(self).display_filter == old(self).display_filter,
            final(self).filter_keywords == old(self).filter_keywords,
            final(self).displayed_invited_rooms == old(self).displayed_invited_rooms,
            final(self).displayed_direct_rooms == old(self).displayed_direct_rooms,
            final(self).displayed_regular_rooms == old(self).displayed_regular_rooms,
            final(self).status == old(self).status,
            final(self).current_active_room == old(self).current_active_room,
            final(self).max_known_rooms == old(self).max_known_rooms,
    {
        self.all_joined_rooms.insert(i, r);
    }

    /// Changes the name or the tombstone flag of the joined room at `i`, adjusting
    /// whether it is displayed.
    fn change_joined_shown(&mut self, i: usize, c: JoinedChange)
        requires
            i < old(self).all_joined_rooms@.len(),
        ensures
            final(self)@ == replace_joined_shown(
                old(self)@,
                i as int,
                apply_change(old(self).all_joined_rooms@[i as int], c),
            ),
    {
        let ghost v = self@;
        let mut room = self.take_joined(i);
        let was = self.display_filter.matches_joined(&room);
        let id = room.room_id.clone();
        let direct = room.is_direct;
        match c {
            JoinedChange::Name(n) => {
                room.room_name = n;
            },
            JoinedChange::Tombstone => {
                room.is_tombstoned = true;
            },
        }
        let should = self.display_filter.matches_joined(&room);
        self.put_joined(i, room);
        assert(self.all_joined_rooms@ =~= v.joined.update(i as int, room));
        if was && !should {
            self.undisplay_joined_exec(&id, direct);
        } else if !was && should {
            self.display_joined_exec(id, direct);
        }
    }

    fn add_invited_room(&mut self, invited_room: InvitedRoomInfo)
        ensures
            final(self)@ == step(old(self)@, RoomsListUpdate::AddInvitedRoom(invited_room)),
    {
        let ghost v = self@;
        let room_id = invited_room.room_id.clone();
        let should_display = self.display_filter.matches_invited(&invited_room);
        match self.invited_index(&room_id) {
            Some(i) => {
                self.invited_rooms.set(i, invited_room);
            },
            None => {
                self.invited_rooms.push(invited_room);
                if should_display {
                    push_id(&mut self.displayed_invited_rooms, room_id.clone());
                }
            },
        }
        if let Some(j) = self.joined_index(&room_id) {
            let removed = self.take_joined(j);
            self.undisplay_joined_exec(&room_id, removed.is_direct);
        }
        self.update_status_rooms_count();
    }

    fn add_joined_room(&mut self, joined_room: JoinedRoomInfo) -> (r: Option<String>)
        ensures
            final(self)@ == step(old(self)@, RoomsListUpdate::AddJoinedRoom(joined_room)),
            opt_view(r) == store_request(old(self)@, RoomsListUpdate::AddJoinedRoom(joined_room)),
    {
        let ghost v = self@;
        let room_id = joined_room.room_id.clone();
        let should_display = self.display_filter.matches_joined(&joined_room);
        let is_direct = joined_room.is_direct;
        let mut request: Option<String> = None;
        match self.joined_index(&room_id) {
            Some(i) => {
                self.all_joined_rooms.set(i, joined_room);
            },
            None => {
                self.all_joined_rooms.push(joined_room);
                if should_display {
                    request = Some(room_id.clone());
                    self.display_joined_exec(room_id.clone(), is_direct);
                }
            },
        }
        match self.invited_index(&room_id) {
            Some(k) => {
                self.invited_rooms.remove(k);
                remove_first_of(&mut self.displayed_invited_rooms, &room_id);
            },
            None => {},
        }
        self.update_status_rooms_count();
        request
    }

    fn set_joined_field(&mut self, room_id: &String, f: JoinedField)
        ensures
            final(self)@ == ({
                let v = old(self)@;
                let i = index_of(jids(v.joined), room_id@);
                if i >= 0 {
                    RoomsListView { joined: v.joined.update(i, apply_field(v.joined[i], f)), ..v }
                } else {
                    v
                }
            }),
    {
        let ghost v = self@;
        if let Some(i) = self.joined_index(room_id) {
            let mut room = self.take_joined(i);
            match f {
                JoinedField::Avatar(a) => {
                    room.avatar = Some(a);
                },
                JoinedField::Latest(l) => {
                    room.latest = Some(l);
                },
                JoinedField::Unread(m, n) => {
                    room.num_unread_messages = m;
                    room.num_unread_mentions = n;
                },
                JoinedField::Topic(t) => {
                    room.topic = Some(t);
                },
                JoinedField::Tags(t) => {
                    room.tags = t;
                },
            }
            self.put_joined(i, room);
            assert(self.all_joined_rooms@ =~= v.joined.update(i as int, room));
        }
    }

    fn rename_room(&mut self, room_id: String, new_room_name: crate::room::RoomDisplayName)
        ensures
            final(self)@ == step(
                old(self)@,
                RoomsListUpdate::UpdateRoomName { room_id, new_room_name },
            ),
    {
        let ghost v = self@;
        if let Some(i) = self.joined_index(&room_id) {
            proof {
                lemma_index_of(jids(v.joined), room_id@);
            }
            self.change_joined_shown(i, JoinedChange::Name(new_room_name));
        } else if let Some(k) = self.invited_index(&room_id) {
            proof {
                lemma_index_of(iids(v.invited), room_id@);
            }
            let mut room = self.invited_rooms.remove(k);
            let was = self.display_filter.matches_invited(&room);
            room.room_name = new_room_name;
            let should = self.display_filter.matches_invited(&room);
            self.invited_rooms.insert(k, room);
            assert(self.invited_rooms@ =~= v.invited.update(k as int, room));
            if was && !should {
                remove_first_of(&mut self.displayed_invited_rooms, &room_id);
            } else if !was && should {
                push_id(&mut self.displayed_invited_rooms, room_id);
            }
        }
    }

    fn set_is_direct(&mut self, room_id: String, is_direct: bool) -> (r: Option<ToastNotificationRequest>)
        ensures
            final(self)@ == step(old(self)@, RoomsListUpdate::UpdateIsDirect { room_id, is_direct }),
            r is Some <==> toast_message(old(self)@, RoomsListUpdate::UpdateIsDirect { room_id, is_direct }) is Some,
            r is Some ==> r.unwrap().message@ == toast_message(
                old(self)@,
                RoomsListUpdate::UpdateIsDirect { room_id, is_direct },
            ).unwrap() && r.unwrap().description is None && r.unwrap().variant
                == ToastNotificationVariant::Info,
    {
        let ghost v = self@;
        if let Some(i) = self.joined_index(&room_id) {
            proof {
                lemma_index_of(jids(v.joined), room_id@);
            }
            if self.all_joined_rooms[i].is_direct == is_direct {
                return None;
            }
            let mut room = self.take_joined(i);
            let was_direct = room.is_direct;
            proof {
                reveal_strlit("direct");
                reveal_strlit("regular");
            }
            let message = room.room_id.clone().concat(" was changed from ").concat(
                if was_direct { "direct" } else { "regular" },
            ).concat(" to ").concat(if is_direct { "direct" } else { "regular" }).concat(".");
            let toast = ToastNotificationRequest::new(message, None, ToastNotificationVariant::Info);
            let shown = self.display_filter.matches_joined(&room);
            room.is_direct = is_direct;
            self.put_joined(i, room);
            assert(self.all_joined_rooms@ =~= v.joined.update(i as int, room));
            if shown {
                self.undisplay_joined_exec(&room_id, was_direct);
                self.display_joined_exec(room_id, is_direct);
            }
            Some(toast)
        } else {
            None
        }
    }

    fn remove_room(&mut self, room_id: String, new_state: crate::room::RoomState)
        ensures
            final(self)@ == step(old(self)@, RoomsListUpdate::RemoveRoom { room_id, new_state }),
    {
        let ghost v = self@;
        if let Some(i) = self.joined_index(&room_id) {
            let removed = self.take_joined(i);
            self.undisplay_joined_exec(&room_id, removed.is_direct);
        } else if let Some(k) = self.invited_index(&room_id) {
            self.invited_rooms.remove(k);
            remove_first_of(&mut self.displayed_invited_rooms, &room_id);
        }
        self.update_status_rooms_count();
    }

    fn clear_rooms(&mut self)
        ensures
            final(self)@ == step(old(self)@, RoomsListUpdate::ClearRooms),
    {
        self.all_joined_rooms.clear();
        self.displayed_direct_rooms.clear();
        self.displayed_regular_rooms.clear();
        self.invited_rooms.clear();
        self.displayed_invited_rooms.clear();
        assert(views(self.displayed_direct_rooms@) =~= Seq::empty());
        assert(views(self.displayed_regular_rooms@) =~= Seq::empty());
        assert(views(self.displayed_invited_rooms@) =~= Seq::empty());
        self.update_status_rooms_count();
    }

    /// Applies one update; returns the room whose frontend store must be created and
    /// the notice to show, if any.
    pub fn apply_update(&mut self, update: RoomsListUpdate) -> (r: (
        Option<String>,
        Option<ToastNotificationRequest>,
    ))
        ensures
            final(self)@ == step(old(self)@, update),
            wf(old(self)@) ==> wf(final(self)@),
            opt_view(r.0) == store_request(old(self)@, update),
            r.1 is Some <==> toast_message(old(self)@, update) is Some,
            r.1 is Some ==> r.1.unwrap().message@ == toast_message(old(self)@, update).unwrap()
                && r.1.unwrap().description is None
                && r.1.unwrap().variant == ToastNotificationVariant::Info,
    {
        proof {
            if wf(self@) {
                lemma_step_wf(self@, update);
            }
        }
        match update {
            RoomsListUpdate::AddInvitedRoom(invited_room) => {
                self.add_invited_room(invited_room);
                (None, None)
            },
            RoomsListUpdate::AddJoinedRoom(joined_room) => {
                let request = self.add_joined_room(joined_room);
                (request, None)
            },
            RoomsListUpdate::UpdateRoomAvatar { room_id, avatar } => {
                self.set_joined_field(&room_id, JoinedField::Avatar(avatar));
                (None, None)
            },
            RoomsListUpdate::UpdateLatestEvent { room_id, timestamp, latest_message_text } => {
                self.set_joined_field(
                    &room_id,
                    JoinedField::Latest(LatestEvent { timestamp, text: latest_message_text }),
                );
                (None, None)
            },
            RoomsListUpdate::UpdateNumUnreadMessages { room_id, unread_messages, unread_mentions } => {
                let f = match unread_messages {
                    UnreadMessageCount::_Unknown => JoinedField::Unread(0, 0),
                    UnreadMessageCount::Known(count) => JoinedField::Unread(count, unread_mentions),
                };
                self.set_joined_field(&room_id, f);
                (None, None)
            },
            RoomsListUpdate::UpdateRoomName { room_id, new_room_name } => {
                self.rename_room(room_id, new_room_name);
                (None, None)
            },
            RoomsListUpdate::UpdateTopic { room_id, new_topic } => {
                self.set_joined_field(&room_id, JoinedField::Topic(new_topic));
                (None, None)
            },
            RoomsListUpdate::UpdateIsDirect { room_id, is_direct } => {
                let toast = self.set_is_direct(room_id, is_direct);
                (None, toast)
            },
            RoomsListUpdate::RemoveRoom { room_id, new_state } => {
                self.remove_room(room_id, new_state);
                (None, None)
            },
            RoomsListUpdate::ClearRooms => {
                self.clear_rooms();
                (None, None)
            },
            RoomsListUpdate::NotLoaded => {
                self.status = RoomsCollectionStatus::Loading(
                    String::from_str("Loading rooms (waiting for homeserver)..."),
                );
                (None, None)
            },
            RoomsListUpdate::LoadedRooms { max_rooms } => {
                self.max_known_rooms = max_rooms;
                self.update_status_rooms_count();
                (None, None)
            },
            RoomsListUpdate::Tags { room_id, new_tags } => {
                self.set_joined_field(&room_id, JoinedField::Tags(new_tags));
                (None, None)
            },
            RoomsListUpdate::Status { status } => {
                self.status = status;
                (None, None)
            },
            RoomsListUpdate::TombstonedRoom { room_id } => {
                if let Some(i) = self.joined_index(&room_id) {
                    self.change_joined_shown(i, JoinedChange::Tombstone);
                }
                (None, None)
            },
            RoomsListUpdate::ApplyFilter { keywords } => {
                self.filter_keywords = keywords;
                (None, None)
            },
        }
    }
}


/// The messages of a list of notices.
pub open spec fn toast_views(t: Seq<ToastNotificationRequest>) -> Seq<Seq<char>> {
    t.map_values(|n: ToastNotificationRequest| n.message@)
}

impl RoomsList {
    /// Applies every pending update in order. When there was at least one, the display
    /// lists are recomputed once and one snapshot is pushed to the UI.
    #[verifier::rlimit(80)]
    pub fn handle_rooms_list_updates(&mut self, updates: Vec<RoomsListUpdate>) -> (r: RoomsListOutcome)
        ensures
            updates@.len() == 0 ==> final(self)@ == old(self)@,
            updates@.len() > 0 ==> final(self)@ == refresh(steps(old(self)@, updates@)),
            wf(old(self)@) ==> wf(final(self)@),
            wf(old(self)@) && updates@.len() > 0 ==> display_wf(final(self)@),
            r.push_state == (updates@.len() > 0),
            views(r.store_requests@) == store_requests(old(self)@, updates@),
            toast_views(r.toasts@) == toast_messages(old(self)@, updates@),
            forall|k: int| 0 <= k < r.toasts@.len() ==> (#[trigger] r.toasts@[k]).variant
                == ToastNotificationVariant::Info && r.toasts@[k].description is None,
    {
        let ghost us = updates@;
        let ghost v0 = self@;
        let n = updates.len();
        let mut pending = updates;
        let mut requests: Vec<String> = Vec::new();
        let mut toasts: Vec<ToastNotificationRequest> = Vec::new();
        let mut k: usize = 0;
        assert(us.subrange(0, 0) =~= Seq::<RoomsListUpdate>::empty());
        assert(views(requests@) =~= Seq::empty());
        assert(toast_views(toasts@) =~= Seq::empty());
        while pending.len() > 0
            invariant
                n == us.len(),
                k <= n,
                pending@ == us.subrange(k as int, n as int),
                self@ == steps(v0, us.subrange(0, k as int)),
                views(requests@) == store_requests(v0, us.subrange(0, k as int)),
                toast_views(toasts@) == toast_messages(v0, us.subrange(0, k as int)),
                forall|j: int| 0 <= j < toasts@.len() ==> (#[trigger] toasts@[j]).variant
                    == ToastNotificationVariant::Info && toasts@[j].description is None,
            decreases pending@.len(),
        {
            let ghost before = self@;
            let u = pending.remove(0);
            proof {
                let p = us.subrange(0, k as int + 1);
                assert(p.drop_last() =~= us.subrange(0, k as int));
                assert(p.last() == u);
                assert(pending@ =~= us.subrange(k as int + 1, n as int));
            }
            let (request, toast) = self.apply_update(u);
            match request {
                Some(id) => {
                    push_id(&mut requests, id);
                },
                None => {},
            }
            assert(views(requests@) =~= store_requests(v0, us.subrange(0, k as int + 1)));
            match toast {
                Some(t) => {
                    toasts.push(t);
                },
                None => {},
            }
            assert(toast_views(toasts@) =~= toast_messages(v0, us.subrange(0, k as int + 1)));
            k = k + 1;
        }
        assert(us.subrange(0, n as int) =~= us);
        proof {
            if wf(v0) {
                lemma_steps_wf(v0, us);
                lemma_refresh_display_wf(steps(v0, us));
            }
        }
        if n > 0 {
            self.update_displayed_rooms();
        }
        RoomsListOutcome { store_requests: requests, toasts, push_state: n > 0 }
    }

    /// Makes `room_id` the active room; says whether a consumer for it must be started,
    /// and whether the previous one must be cancelled first.
    pub fn handle_current_active_room(&mut self, room_id: String) -> (r: ActiveRoomAction)
        ensures
            old(self)@.current_active_room == Some(room_id@) ==> r == ActiveRoomAction::Unchanged
                && final(self)@ == old(self)@,
            old(self)@.current_active_room != Some(room_id@) ==> r == (ActiveRoomAction::Switch {
                cancel_previous: old(self)@.current_active_room is Some,
            }) && final(self)@ == (RoomsListView {
                current_active_room: Some(room_id@),
                ..old(self)@
            }),
    {
        let cancel_previous = match &self.current_active_room {
            Some(current) => {
                if *current == room_id {
                    return ActiveRoomAction::Unchanged;
                }
                true
            },
            None => false,
        };
        self.current_active_room = Some(room_id);
        ActiveRoomAction::Switch { cancel_previous }
    }
}

} // verus!
