use vstd::prelude::*;
use crate::models::{FrontendVirtualTimelineItem, ToastNotificationRequest, ToastNotificationVariant};
use crate::power_levels::{UserPower, UserPowerLevels};
use crate::rooms_list::opt_view;
use crate::text::{distinct, index_of, lemma_distinct_push, lemma_distinct_remove, lemma_index_of, views};

verus! {

/// An entry of a room's timeline.
#[derive(Debug)]
pub enum TimelineItem {
    /// An item backed by an event; `event_id` is absent for a local echo the server has
    /// not acknowledged yet.
    Event {
        unique_id: String,
        event_id: Option<String>,
        sender: String,
        timestamp: u64,
        is_own: bool,
        is_local_echo: bool,
    },
    /// An item not backed by an event; it never carries an event id.
    Virtual { unique_id: String, kind: FrontendVirtualTimelineItem },
}

/// The permanent event id of an item, if it has one.
pub open spec fn event_id_of(item: TimelineItem) -> Option<Seq<char>> {
    match item {
        TimelineItem::Event { event_id, .. } => opt_view(event_id),
        TimelineItem::Virtual { .. } => None,
    }
}

pub fn item_event_id(item: &TimelineItem) -> (r: Option<&String>)
    ensures
        match r {
            Some(s) => event_id_of(*item) == Some(s@),
            None => event_id_of(*item) is None,
        },
{
    match item {
        TimelineItem::Event { event_id, .. } => match event_id {
            Some(e) => Some(e),
            None => None,
        },
        TimelineItem::Virtual { .. } => None,
    }
}

/// The direction of a pagination.
#[derive(Clone, Copy, Debug, PartialEq, Eq, Structural)]
pub enum PaginationDirection {
    Forwards,
    Backwards,
}

/// A member of a room, as shown by the UI.
#[derive(Debug)]
pub struct FrontendRoomMember {
    pub user_id: String,
    pub name: String,
    pub max_power_level: UserPower,
    pub display_name_ambiguous: bool,
    pub is_ignored: bool,
}

/// An update to a room's timeline, produced by its background consumer or by a request.
#[derive(Debug)]
pub enum TimelineUpdate {
    /// The first non-empty list of items.
    FirstUpdate { initial_items: Vec<TimelineItem> },
    /// A new list of items; `clear_cache` says the timeline was reset.
    NewItems { new_items: Vec<TimelineItem>, clear_cache: bool },
    NewUnreadMessagesCount(u64),
    /// The event looked for by a jump was found at `index`.
    TargetEventFound { target_event_id: String, index: usize },
    PaginationRunning(PaginationDirection),
    PaginationError { error: String, direction: PaginationDirection },
    PaginationIdle { fully_paginated: bool, direction: PaginationDirection },
    EventDetailsFetched { event_id: String, succeeded: bool },
    RoomMembersSynced,
    RoomMembersListFetched { members: Vec<FrontendRoomMember> },
    MediaFetched,
    MessageEdited { timeline_event_id: String, succeeded: bool },
    TypingUsers { users: Vec<String> },
    UserPowerLevels(UserPowerLevels),
    /// The event id that the user's own read receipt now points at.
    OwnUserReadReceipt(String),
}

/// A request that the room screen submits to the async worker.
#[derive(Debug)]
pub enum TimelineRequest {
    PaginateRoomTimeline { room_id: String, num_events: u16, direction: PaginationDirection },
    GetRoomPowerLevels { room_id: String },
    SubscribeToTypingNotices { room_id: String, subscribe: bool },
    SubscribeToOwnUserReadReceiptsChanged { room_id: String, subscribe: bool },
    SyncRoomMemberList { room_id: String },
    /// Drop the pending jump requests of the room: its target was found.
    ClearTargetEventRequests { room_id: String },
}

/// The UI state of a room's timeline, kept across show and hide.
pub struct TimelineUiState {
    pub room_id: String,
    /// The current user's powers; every power until they are known.
    pub user_power: UserPowerLevels,
    /// Whether backward pagination reached the start of the timeline.
    pub fully_paginated: bool,
    pub items: Vec<TimelineItem>,
    pub scrolled_past_read_marker: bool,
    pub latest_own_user_receipt: Option<String>,
}

impl TimelineUiState {
    /// The state of a room shown for the first time.
    pub fn fresh(room_id: String) -> (r: Self)
        ensures
            r.room_id == room_id,
            r.user_power.is_all(),
            !r.fully_paginated,
            r.items@.len() == 0,
            !r.scrolled_past_read_marker,
            r.latest_own_user_receipt is None,
    {
        TimelineUiState {
            room_id,
            user_power: UserPowerLevels::all(),
            fully_paginated: false,
            items: Vec::new(),
            scrolled_past_read_marker: false,
            latest_own_user_receipt: None,
        }
    }
}

/// The first position `k` in `[from, end)` whose item has event id `e`, or -1.
pub open spec fn first_with_id(items: Seq<TimelineItem>, e: Seq<char>, from: int, end: int) -> int
    decreases end - from,
{
    if from >= end || from < 0 || from >= items.len() {
        -1
    } else if event_id_of(items[from]) == Some(e) {
        from
    } else {
        first_with_id(items, e, from + 1, end)
    }
}

/// The first new item, from position `j`, whose event id is also carried by one of the
/// visible current items `[first, first + visible)`: (current position, new position).
pub open spec fn match_from(
    curr: Seq<TimelineItem>,
    new: Seq<TimelineItem>,
    first: int,
    visible: int,
    j: int,
) -> Option<(int, int)>
    decreases new.len() - j,
{
    if j < 0 || j >= new.len() {
        None
    } else {
        match event_id_of(new[j]) {
            Some(e) => {
                let k = first_with_id(curr, e, first, first + visible);
                if k >= 0 {
                    Some((k, j))
                } else {
                    match_from(curr, new, first, visible, j + 1)
                }
            },
            None => match_from(curr, new, first, visible, j + 1),
        }
    }
}

fn first_with_id_exec(items: &Vec<TimelineItem>, e: &String, from: usize, end: usize) -> (r: Option<usize>)
    ensures
        match r {
            Some(k) => k as int == first_with_id(items@, e@, from as int, end as int),
            None => first_with_id(items@, e@, from as int, end as int) == -1,
        },
{
    let mut k = from;
    while k < end && k < items.len()
        invariant
            from <= k,
            first_with_id(items@, e@, from as int, end as int) == first_with_id(items@, e@, k as int, end as int),
        decreases end - k,
    {
        match item_event_id(&items[k]) {
            Some(id) => {
                if *id == *e {
                    return Some(k);
                }
            },
            None => {},
        }
        k = k + 1;
    }
    None
}

/// Finds a new item that carries the event id of a currently visible item, so that the
/// view can stay on it: returns its position in the current list, its position in the
/// new list and the event id.
pub fn find_new_item_matching_current_item(
    first_visible: usize,
    visible_items: usize,
    curr_items: &Vec<TimelineItem>,
    new_items: &Vec<TimelineItem>,
) -> (r: Option<(usize, usize, String)>)
    requires
        first_visible + visible_items <= usize::MAX,
    ensures
        match r {
            Some((k, j, e)) => match_from(curr_items@, new_items@, first_visible as int, visible_items as int, 0)
                == Some((k as int, j as int)) && event_id_of(new_items@[j as int]) == Some(e@),
            None => match_from(curr_items@, new_items@, first_visible as int, visible_items as int, 0) is None,
        },
{
    let end = first_visible + visible_items;
    let mut j: usize = 0;
    while j < new_items.len()
        invariant
            end == first_visible + visible_items,
            j <= new_items@.len(),
            match_from(curr_items@, new_items@, first_visible as int, visible_items as int, 0)
                == match_from(curr_items@, new_items@, first_visible as int, visible_items as int, j as int),
        decreases new_items@.len() - j,
    {
        match item_event_id(&new_items[j]) {
            Some(e) => {
                match first_with_id_exec(curr_items, e, first_visible, end) {
                    Some(k) => {
                        return Some((k, j, e.clone()));
                    },
                    None => {},
                }
            },
            None => {},
        }
        j = j + 1;
    }
    None
}

/// A request as the contracts see it.
pub enum RequestView {
    Paginate(Seq<char>, u16, PaginationDirection),
    GetRoomPowerLevels(Seq<char>),
    SubscribeTyping(Seq<char>, bool),
    SubscribeReceipts(Seq<char>, bool),
    SyncMembers(Seq<char>),
    ClearTargets(Seq<char>),
}

pub open spec fn request_view(r: TimelineRequest) -> RequestView {
    match r {
        TimelineRequest::PaginateRoomTimeline { room_id, num_events, direction } => RequestView::Paginate(
            room_id@,
            num_events,
            direction,
        ),
        TimelineRequest::GetRoomPowerLevels { room_id } => RequestView::GetRoomPowerLevels(room_id@),
        TimelineRequest::SubscribeToTypingNotices { room_id, subscribe } => RequestView::SubscribeTyping(
            room_id@,
            subscribe,
        ),
        TimelineRequest::SubscribeToOwnUserReadReceiptsChanged { room_id, subscribe } =>
            RequestView::SubscribeReceipts(room_id@, subscribe),
        TimelineRequest::SyncRoomMemberList { room_id } => RequestView::SyncMembers(room_id@),
        TimelineRequest::ClearTargetEventRequests { room_id } => RequestView::ClearTargets(room_id@),
    }
}

pub open spec fn request_views(rs: Seq<TimelineRequest>) -> Seq<RequestView> {
    rs.map_values(|r: TimelineRequest| request_view(r))
}

pub open spec fn member_ids(ms: Seq<FrontendRoomMember>) -> Seq<Seq<char>> {
    ms.map_values(|m: FrontendRoomMember| m.user_id@)
}

#[verifier::opaque]
/// The member map after merging `new` into it: each fetched member replaces the entry
/// with its user id, or is added.
pub open spec fn merge_members(ms: Seq<FrontendRoomMember>, new: Seq<FrontendRoomMember>) -> Seq<FrontendRoomMember>
    decreases new.len(),
{
    if new.len() == 0 {
        ms
    } else {
        let base = merge_members(ms, new.drop_last());
        let i = index_of(member_ids(base), new.last().user_id@);
        if i >= 0 {
            base.update(i, new.last())
        } else {
            base.push(new.last())
        }
    }
}

/// The set of typing users, as a list without repeats, after adding `users`.
#[verifier::opaque]
pub open spec fn add_users(t: Seq<Seq<char>>, users: Seq<Seq<char>>) -> Seq<Seq<char>>
    decreases users.len(),
{
    if users.len() == 0 {
        t
    } else {
        let base = add_users(t, users.drop_last());
        if index_of(base, users.last()) >= 0 {
            base
        } else {
            base.push(users.last())
        }
    }
}

/// A shown room's timeline as the drain loop sees it.
pub struct ScreenModel {
    pub items: Seq<TimelineItem>,
    pub fully_paginated: bool,
    pub scrolled_past_read_marker: bool,
    pub user_power: UserPowerLevels,
    pub latest_own_user_receipt: Option<Seq<char>>,
    pub done_loading: bool,
    pub typing_users: Seq<Seq<char>>,
    pub members: Seq<FrontendRoomMember>,
    /// Whether backward pagination must be requested once the drain is over.
    pub continue_pagination: bool,
}

/// Whether replacing the items `curr` by `new` moves the view: the lists differ in
/// length and the first current item's event now stands elsewhere.
#[verifier::opaque]
pub open spec fn view_jumps(curr: Seq<TimelineItem>, new: Seq<TimelineItem>) -> bool {
    new.len() != curr.len() && match match_from(curr, new, 0, 1, 0) {
        Some((k, j)) => k != j,
        None => false,
    }
}

pub fn detect_view_jump(curr: &Vec<TimelineItem>, new: &Vec<TimelineItem>) -> (r: bool)
    ensures
        r == view_jumps(curr@, new@),
{
    reveal(view_jumps);
    if new.len() != curr.len() {
        match find_new_item_matching_current_item(0, 1, curr, new) {
            Some((curr_item_idx, new_item_idx, _event_id)) => curr_item_idx != new_item_idx,
            None => false,
        }
    } else {
        false
    }
}

/// What one timeline update does to a shown room.
#[verifier::opaque]
pub open spec fn tl_step(s: ScreenModel, u: TimelineUpdate) -> ScreenModel {
    match u {
        TimelineUpdate::FirstUpdate { initial_items } => ScreenModel {
            fully_paginated: false,
            items: initial_items@,
            done_loading: true,
            ..s
        },
        TimelineUpdate::NewItems { new_items, clear_cache } => {
            let n = new_items@;
            let jumped = view_jumps(s.items, n);
            ScreenModel {
                continue_pagination: if n.len() == 0 && s.items.len() != 0 {
                    true
                } else {
                    s.continue_pagination
                },
                scrolled_past_read_marker: if jumped { false } else { s.scrolled_past_read_marker },
                fully_paginated: if clear_cache { false } else { s.fully_paginated },
                items: n,
                done_loading: true,
                ..s
            }
        },
        TimelineUpdate::TargetEventFound { .. } => ScreenModel { continue_pagination: false, ..s },
        TimelineUpdate::PaginationRunning(direction) => if direction == PaginationDirection::Backwards {
            ScreenModel { done_loading: false, ..s }
        } else {
            s
        },
        TimelineUpdate::PaginationError { .. } => ScreenModel { done_loading: true, ..s },
        TimelineUpdate::PaginationIdle { fully_paginated, direction } => if direction
            == PaginationDirection::Backwards {
            ScreenModel {
                fully_paginated,
                done_loading: if fully_paginated { true } else { s.done_loading },
                ..s
            }
        } else {
            s
        },
        TimelineUpdate::RoomMembersListFetched { members } => ScreenModel {
            members: merge_members(s.members, members@),
            ..s
        },
        TimelineUpdate::TypingUsers { users } => ScreenModel {
            typing_users: add_users(s.typing_users, views(users@)),
            ..s
        },
        TimelineUpdate::UserPowerLevels(l) => ScreenModel { user_power: l, ..s },
        TimelineUpdate::OwnUserReadReceipt(r) => ScreenModel { latest_own_user_receipt: Some(r@), ..s },
        _ => s,
    }
}

pub open spec fn tl_steps(s: ScreenModel, us: Seq<TimelineUpdate>) -> ScreenModel
    decreases us.len(),
{
    if us.len() == 0 {
        s
    } else {
        tl_step(tl_steps(s, us.drop_last()), us.last())
    }
}

/// The requests made while draining: one per found jump target, in order.
pub open spec fn drain_requests(room_id: Seq<char>, us: Seq<TimelineUpdate>) -> Seq<RequestView>
    decreases us.len(),
{
    if us.len() == 0 {
        Seq::empty()
    } else if us.last() is TargetEventFound {
        drain_requests(room_id, us.drop_last()).push(RequestView::ClearTargets(room_id))
    } else {
        drain_requests(room_id, us.drop_last())
    }
}

/// The notices shown while draining: one per edited message, by outcome.
pub open spec fn drain_toasts(us: Seq<TimelineUpdate>) -> Seq<(Seq<char>, ToastNotificationVariant)>
    decreases us.len(),
{
    if us.len() == 0 {
        Seq::empty()
    } else {
        drain_toasts_step(drain_toasts(us.drop_last()), us.last())
    }
}

pub open spec fn toast_view(t: ToastNotificationRequest) -> (Seq<char>, ToastNotificationVariant) {
    (t.message@, t.variant)
}

pub open spec fn toasts_view(ts: Seq<ToastNotificationRequest>) -> Seq<(Seq<char>, ToastNotificationVariant)> {
    ts.map_values(|t: ToastNotificationRequest| toast_view(t))
}

/// The notices after one more update.
pub open spec fn drain_toasts_step(
    base: Seq<(Seq<char>, ToastNotificationVariant)>,
    u: TimelineUpdate,
) -> Seq<(Seq<char>, ToastNotificationVariant)> {
    match u {
        TimelineUpdate::MessageEdited { succeeded, .. } => if succeeded {
            base.push(("Successfully edited message."@, ToastNotificationVariant::Success))
        } else {
            base.push(("Error while editing event."@, ToastNotificationVariant::Error))
        },
        _ => base,
    }
}

/// What a drain asks of the outside, and whether one new snapshot of the room goes to
/// the UI.
pub struct DrainOutcome {
    pub requests: Vec<TimelineRequest>,
    pub toasts: Vec<ToastNotificationRequest>,
    pub push_state: bool,
}

/// The timeline states of the rooms that are not shown, keyed by room id.
pub struct TimelineStates {
    pub states: Vec<TimelineUiState>,
}

pub open spec fn state_ids(s: Seq<TimelineUiState>) -> Seq<Seq<char>> {
    s.map_values(|t: TimelineUiState| t.room_id@)
}

impl TimelineStates {
    pub fn new() -> (r: Self)
        ensures
            r.states@.len() == 0,
            distinct(state_ids(r.states@)),
    {
        let r = TimelineStates { states: Vec::new() };
        assert(state_ids(r.states@) =~= Seq::empty());
        r
    }

    fn index_of_room(&self, room_id: &String) -> (r: Option<usize>)
        ensures
            r is None <==> index_of(state_ids(self.states@), room_id@) < 0,
            r is Some ==> r.unwrap() as int == index_of(state_ids(self.states@), room_id@)
                && r.unwrap() < self.states@.len(),
    {
        let ghost s = state_ids(self.states@);
        proof {
            lemma_index_of(s, room_id@);
        }
        let mut j: usize = 0;
        while j < self.states.len()
            invariant
                s == state_ids(self.states@),
                j <= self.states@.len(),
                index_of(s, room_id@) == crate::text::index_from(s, room_id@, j as int),
            decreases self.states@.len() - j,
        {
            if self.states[j].room_id == *room_id {
                return Some(j);
            }
            j = j + 1;
        }
        None
    }

    /// Takes the saved state of a room out of the map.
    pub fn take(&mut self, room_id: &String) -> (r: Option<TimelineUiState>)
        ensures
            ({
                let i = index_of(state_ids(old(self).states@), room_id@);
                if i >= 0 {
                    r == Some(old(self).states@[i]) && final(self).states@ == old(self).states@.remove(i)
                } else {
                    r is None && final(self).states@ == old(self).states@
                }
            }),
            distinct(state_ids(old(self).states@)) ==> distinct(state_ids(final(self).states@)),
    {
        proof {
            lemma_index_of(state_ids(self.states@), room_id@);
            let i = index_of(state_ids(self.states@), room_id@);
            if i >= 0 && distinct(state_ids(self.states@)) {
                assert(state_ids(self.states@.remove(i)) =~= state_ids(self.states@).remove(i));
                lemma_distinct_remove(state_ids(self.states@), i);
            }
        }
        match self.index_of_room(room_id) {
            Some(i) => Some(self.states.remove(i)),
            None => None,
        }
    }

    /// Saves the state of a room in the map, replacing an older one.
    pub fn save(&mut self, state: TimelineUiState)
        ensures
            ({
                let i = index_of(state_ids(old(self).states@), state.room_id@);
                if i >= 0 {
                    final(self).states@ == old(self).states@.update(i, state)
                } else {
                    final(self).states@ == old(self).states@.push(state)
                }
            }),
            distinct(state_ids(old(self).states@)) ==> distinct(state_ids(final(self).states@)),
    {
        proof {
            let ids = state_ids(self.states@);
            lemma_index_of(ids, state.room_id@);
            let i = index_of(ids, state.room_id@);
            if i >= 0 {
                assert(state_ids(self.states@.update(i, state)) =~= ids);
            } else if distinct(ids) {
                assert(state_ids(self.states@.push(state)) =~= ids.push(state.room_id@));
                lemma_distinct_push(ids, state.room_id@);
            }
        }
        match self.index_of_room(&state.room_id) {
            Some(i) => {
                self.states.set(i, state);
            },
            None => {
                self.states.push(state);
            },
        }
    }
}

/// The requests made when a room is shown, after any bootstrap pagination.
pub open spec fn opening_requests(id: Seq<char>) -> Seq<RequestView> {
    seq![
        RequestView::GetRoomPowerLevels(id),
        RequestView::SubscribeTyping(id, true),
        RequestView::SubscribeReceipts(id, true),
        RequestView::SyncMembers(id),
    ]
}

/// The requests made when a room is hidden.
pub open spec fn closing_requests(id: Seq<char>) -> Seq<RequestView> {
    seq![RequestView::SubscribeTyping(id, false), RequestView::SubscribeReceipts(id, false)]
}

/// The saved states after saving `tl`, if any, under its room id.
pub open spec fn saved_states(states: Seq<TimelineUiState>, tl: Option<TimelineUiState>) -> Seq<TimelineUiState> {
    match tl {
        None => states,
        Some(t) => {
            let i = index_of(state_ids(states), t.room_id@);
            if i >= 0 {
                states.update(i, t)
            } else {
                states.push(t)
            }
        },
    }
}

/// A shown (or hidden) room: its timeline state while shown, its members, who is typing,
/// and whether its timeline finished loading.
pub struct RoomScreen {
    pub room_id: String,
    pub room_name: String,
    pub tl_state: Option<TimelineUiState>,
    pub members: Vec<FrontendRoomMember>,
    pub typing_users: Vec<String>,
    pub done_loading: bool,
}

pub open spec fn model_of(screen: RoomScreen, tl: TimelineUiState, cont: bool) -> ScreenModel {
    ScreenModel {
        items: tl.items@,
        fully_paginated: tl.fully_paginated,
        scrolled_past_read_marker: tl.scrolled_past_read_marker,
        user_power: tl.user_power,
        latest_own_user_receipt: opt_view(tl.latest_own_user_receipt),
        done_loading: screen.done_loading,
        typing_users: views(screen.typing_users@),
        members: screen.members@,
        continue_pagination: cont,
    }
}

fn member_index(ms: &Vec<FrontendRoomMember>, id: &String) -> (r: Option<usize>)
    ensures
        r is None <==> index_of(member_ids(ms@), id@) < 0,
        r is Some ==> r.unwrap() as int == index_of(member_ids(ms@), id@) && r.unwrap() < ms@.len(),
{
    let ghost s = member_ids(ms@);
    proof {
        lemma_index_of(s, id@);
    }
    let mut j: usize = 0;
    while j < ms.len()
        invariant
            s == member_ids(ms@),
            j <= ms@.len(),
            index_of(s, id@) == crate::text::index_from(s, id@, j as int),
        decreases ms@.len() - j,
    {
        if ms[j].user_id == *id {
            return Some(j);
        }
        j = j + 1;
    }
    None
}

fn merge_members_exec(ms: &mut Vec<FrontendRoomMember>, new: Vec<FrontendRoomMember>)
    ensures
        final(ms)@ == merge_members(old(ms)@, new@),
{
    reveal(merge_members);
    let ghost ns = new@;
    let ghost m0 = ms@;
    let n = new.len();
    let mut rest = new;
    let mut k: usize = 0;
    assert(ns.subrange(0, 0) =~= Seq::<FrontendRoomMember>::empty());
    while rest.len() > 0
        invariant
            n == ns.len(),
            k <= n,
            rest@ == ns.subrange(k as int, n as int),
            ms@ == merge_members(m0, ns.subrange(0, k as int)),
        decreases rest@.len(),
    {
        let m = rest.remove(0);
        proof {
            reveal(merge_members);
            let p = ns.subrange(0, k as int + 1);
            assert(p.drop_last() =~= ns.subrange(0, k as int));
            assert(p.last() == m);
            assert(rest@ =~= ns.subrange(k as int + 1, n as int));
            lemma_index_of(member_ids(ms@), m.user_id@);
        }
        match member_index(ms, &m.user_id) {
            Some(i) => {
                ms.set(i, m);
            },
            None => {
                ms.push(m);
            },
        }
        k = k + 1;
    }
    assert(ns.subrange(0, n as int) =~= ns);
}

fn add_users_exec(t: &mut Vec<String>, users: Vec<String>)
    ensures
        views(final(t)@) == add_users(views(old(t)@), views(users@)),
{
    reveal(add_users);
    let ghost us = views(users@);
    let ghost t0 = views(t@);
    let n = users.len();
    let mut k: usize = 0;
    assert(us.subrange(0, 0) =~= Seq::<Seq<char>>::empty());
    while k < n
        invariant
            n == us.len(),
            us == views(users@),
            k <= n,
            views(t@) == add_users(t0, us.subrange(0, k as int)),
        decreases n - k,
    {
        proof {
            reveal(add_users);
            let p = us.subrange(0, k as int + 1);
            assert(p.drop_last() =~= us.subrange(0, k as int));
            assert(p.last() == users@[k as int]@);
        }
        match crate::text::position_of(t, &users[k]) {
            Some(_) => {},
            None => {
                crate::text::push_id(t, users[k].clone());
            },
        }
        k = k + 1;
    }
    assert(us.subrange(0, n as int) =~= us);
}

impl RoomScreen {
    pub fn new(room_id: String, room_name: String) -> (r: Self)
        ensures
            r.room_id == room_id,
            r.room_name == room_name,
            r.tl_state is None,
            r.members@.len() == 0,
            r.typing_users@.len() == 0,
            !r.done_loading,
    {
        RoomScreen {
            room_id,
            room_name,
            tl_state: None,
            members: Vec::new(),
            typing_users: Vec::new(),
            done_loading: false,
        }
    }

    fn new_items(
        &mut self,
        tl: &mut TimelineUiState,
        cont: &mut bool,
        new_items: Vec<TimelineItem>,
        clear_cache: bool,
    )
        ensures
            final(tl).items@ == new_items@,
            final(tl).fully_paginated == (if clear_cache { false } else { old(tl).fully_paginated }),
            final(tl).scrolled_past_read_marker == (if view_jumps(old(tl).items@, new_items@) {
                false
            } else {
                old(tl).scrolled_past_read_marker
            }),
            final(tl).user_power == old(tl).user_power,
            final(tl).latest_own_user_receipt == old(tl).latest_own_user_receipt,
            final(tl).room_id == old(tl).room_id,
            *final(cont) == (if new_items@.len() == 0 && old(tl).items@.len() != 0 {
                true
            } else {
                *old(cont)
            }),
            final(self).done_loading,
            final(self).room_id == old(self).room_id,
            final(self).room_name == old(self).room_name,
            final(self).tl_state == old(self).tl_state,
            final(self).members == old(self).members,
            final(self).typing_users == old(self).typing_users,
    {
        if new_items.len() == 0 && tl.items.len() != 0 {
            *cont = true;
        }
        if detect_view_jump(&tl.items, &new_items) {
            tl.scrolled_past_read_marker = false;
        }
        if clear_cache {
            tl.fully_paginated = false;
        }
        tl.items = new_items;
        self.done_loading = true;
    }

    fn on_first_update(&mut self, tl: &mut TimelineUiState, cont: &mut bool, initial_items: Vec<TimelineItem>)
        ensures
            model_of(*final(self), *final(tl), *final(cont)) == tl_step(
                model_of(*old(self), *old(tl), *old(cont)),
                TimelineUpdate::FirstUpdate { initial_items },
            ),
            final(self).room_id == old(self).room_id,
            final(self).room_name == old(self).room_name,
            final(self).tl_state == old(self).tl_state,
            final(tl).room_id == old(tl).room_id,
    {
        proof {
            reveal(tl_step);
        }
        tl.fully_paginated = false;
        tl.items = initial_items;
        self.done_loading = true;
    }

    fn on_new_items(&mut self, tl: &mut TimelineUiState, cont: &mut bool, new_items: Vec<TimelineItem>, clear_cache: bool)
        ensures
            model_of(*final(self), *final(tl), *final(cont)) == tl_step(
                model_of(*old(self), *old(tl), *old(cont)),
                TimelineUpdate::NewItems { new_items, clear_cache },
            ),
            final(self).room_id == old(self).room_id,
            final(self).room_name == old(self).room_name,
            final(self).tl_state == old(self).tl_state,
            final(tl).room_id == old(tl).room_id,
    {
        proof {
            reveal(tl_step);
        }
        self.new_items(tl, cont, new_items, clear_cache);
    }

    fn on_target_found(&mut self, tl: &mut TimelineUiState, cont: &mut bool, target_event_id: String, index: usize)
        ensures
            model_of(*final(self), *final(tl), *final(cont)) == tl_step(
                model_of(*old(self), *old(tl), *old(cont)),
                TimelineUpdate::TargetEventFound { target_event_id, index },
            ),
            final(self).room_id == old(self).room_id,
            final(self).room_name == old(self).room_name,
            final(self).tl_state == old(self).tl_state,
            final(tl).room_id == old(tl).room_id,
    {
        proof {
            reveal(tl_step);
        }
        *cont = false;
    }

    fn on_pagination_running(&mut self, tl: &mut TimelineUiState, cont: &mut bool, direction: PaginationDirection)
        ensures
            model_of(*final(self), *final(tl), *final(cont)) == tl_step(
                model_of(*old(self), *old(tl), *old(cont)),
                TimelineUpdate::PaginationRunning(direction),
            ),
            final(self).room_id == old(self).room_id,
            final(self).room_name == old(self).room_name,
            final(self).tl_state == old(self).tl_state,
            final(tl).room_id == old(tl).room_id,
    {
        proof {
            reveal(tl_step);
        }
        if direction == PaginationDirection::Backwards {
            self.done_loading = false;
        }
    }

    fn on_pagination_error(&mut self, tl: &mut TimelineUiState, cont: &mut bool, error: String, direction: PaginationDirection)
        ensures
            model_of(*final(self), *final(tl), *final(cont)) == tl_step(
                model_of(*old(self), *old(tl), *old(cont)),
                TimelineUpdate::PaginationError { error, direction },
            ),
            final(self).room_id == old(self).room_id,
            final(self).room_name == old(self).room_name,
            final(self).tl_state == old(self).tl_state,
            final(tl).room_id == old(tl).room_id,
    {
        proof {
            reveal(tl_step);
        }
        self.done_loading = true;
    }

    fn on_pagination_idle(&mut self, tl: &mut TimelineUiState, cont: &mut bool, fully_paginated: bool, direction: PaginationDirection)
        ensures
            model_of(*final(self), *final(tl), *final(cont)) == tl_step(
                model_of(*old(self), *old(tl), *old(cont)),
                TimelineUpdate::PaginationIdle { fully_paginated, direction },
            ),
            final(self).room_id == old(self).room_id,
            final(self).room_name == old(self).room_name,
            final(self).tl_state == old(self).tl_state,
            final(tl).room_id == old(tl).room_id,
    {
        proof {
            reveal(tl_step);
        }
        if direction == PaginationDirection::Backwards {
            tl.fully_paginated = fully_paginated;
            if fully_paginated {
                self.done_loading = true;
            }
        }
    }

    fn on_members(&mut self, tl: &mut TimelineUiState, cont: &mut bool, members: Vec<FrontendRoomMember>)
        ensures
            model_of(*final(self), *final(tl), *final(cont)) == tl_step(
                model_of(*old(self), *old(tl), *old(cont)),
                TimelineUpdate::RoomMembersListFetched { members },
            ),
            final(self).room_id == old(self).room_id,
            final(self).room_name == old(self).room_name,
            final(self).tl_state == old(self).tl_state,
            final(tl).room_id == old(tl).room_id,
    {
        proof {
            reveal(tl_step);
        }
        merge_members_exec(&mut self.members, members);
    }

    fn on_typing(&mut self, tl: &mut TimelineUiState, cont: &mut bool, users: Vec<String>)
        ensures
            model_of(*final(self), *final(tl), *final(cont)) == tl_step(
                model_of(*old(self), *old(tl), *old(cont)),
                TimelineUpdate::TypingUsers { users },
            ),
            final(self).room_id == old(self).room_id,
            final(self).room_name == old(self).room_name,
            final(self).tl_state == old(self).tl_state,
            final(tl).room_id == old(tl).room_id,
    {
        proof {
            reveal(tl_step);
        }
        add_users_exec(&mut self.typing_users, users);
    }

    fn on_power(&mut self, tl: &mut TimelineUiState, cont: &mut bool, levels: UserPowerLevels)
        ensures
            model_of(*final(self), *final(tl), *final(cont)) == tl_step(
                model_of(*old(self), *old(tl), *old(cont)),
                TimelineUpdate::UserPowerLevels(levels),
            ),
            final(self).room_id == old(self).room_id,
            final(self).room_name == old(self).room_name,
            final(self).tl_state == old(self).tl_state,
            final(tl).room_id == old(tl).room_id,
    {
        proof {
            reveal(tl_step);
        }
        tl.user_power = levels;
    }

    fn on_receipt(&mut self, tl: &mut TimelineUiState, cont: &mut bool, receipt: String)
        ensures
            model_of(*final(self), *final(tl), *final(cont)) == tl_step(
                model_of(*old(self), *old(tl), *old(cont)),
                TimelineUpdate::OwnUserReadReceipt(receipt),
            ),
            final(self).room_id == old(self).room_id,
            final(self).room_name == old(self).room_name,
            final(self).tl_state == old(self).tl_state,
            final(tl).room_id == old(tl).room_id,
    {
        proof {
            reveal(tl_step);
        }
        tl.latest_own_user_receipt = Some(receipt);
    }

    fn on_other(&mut self, tl: &mut TimelineUiState, cont: &mut bool, u: TimelineUpdate)
        requires
            u is NewUnreadMessagesCount || u is EventDetailsFetched || u is RoomMembersSynced
                || u is MediaFetched || u is MessageEdited,
        ensures
            model_of(*final(self), *final(tl), *final(cont)) == tl_step(
                model_of(*old(self), *old(tl), *old(cont)),
                u,
            ),
            final(self).room_id == old(self).room_id,
            final(self).room_name == old(self).room_name,
            final(self).tl_state == old(self).tl_state,
            final(tl).room_id == old(tl).room_id,
    {
        proof {
            reveal(tl_step);
        }
    }

    fn apply_one(
        &mut self,
        tl: &mut TimelineUiState,
        cont: &mut bool,
        u: TimelineUpdate,
        requests: &mut Vec<TimelineRequest>,
        toasts: &mut Vec<ToastNotificationRequest>,
    )
        ensures
            model_of(*final(self), *final(tl), *final(cont)) == tl_step(model_of(*old(self), *old(tl), *old(cont)), u),
            final(self).room_id == old(self).room_id,
            final(self).room_name == old(self).room_name,
            final(self).tl_state == old(self).tl_state,
            final(tl).room_id == old(tl).room_id,
            request_views(final(requests)@) == (if u is TargetEventFound {
                request_views(old(requests)@).push(RequestView::ClearTargets(old(tl).room_id@))
            } else {
                request_views(old(requests)@)
            }),
            toasts_view(final(toasts)@) == drain_toasts_step(toasts_view(old(toasts)@), u),
    {
        let ghost rq = requests@;
        let ghost t0 = toasts@;
        match u {
            TimelineUpdate::FirstUpdate { initial_items } => self.on_first_update(tl, cont, initial_items),
            TimelineUpdate::NewItems { new_items, clear_cache } => self.on_new_items(tl, cont, new_items, clear_cache),
            TimelineUpdate::TargetEventFound { target_event_id, index } => {
                requests.push(TimelineRequest::ClearTargetEventRequests { room_id: tl.room_id.clone() });
                assert(request_views(requests@) =~= request_views(rq).push(RequestView::ClearTargets(tl.room_id@)));
                self.on_target_found(tl, cont, target_event_id, index);
            },
            TimelineUpdate::PaginationRunning(direction) => self.on_pagination_running(tl, cont, direction),
            TimelineUpdate::PaginationError { error, direction } => self.on_pagination_error(tl, cont, error, direction),
            TimelineUpdate::PaginationIdle { fully_paginated, direction } => self.on_pagination_idle(tl, cont, fully_paginated, direction),
            TimelineUpdate::RoomMembersListFetched { members } => self.on_members(tl, cont, members),
            TimelineUpdate::TypingUsers { users } => self.on_typing(tl, cont, users),
            TimelineUpdate::UserPowerLevels(levels) => self.on_power(tl, cont, levels),
            TimelineUpdate::OwnUserReadReceipt(receipt) => self.on_receipt(tl, cont, receipt),
            TimelineUpdate::MessageEdited { timeline_event_id, succeeded } => {
                if succeeded {
                    toasts.push(ToastNotificationRequest::new(
                        String::from_str("Successfully edited message."),
                        None,
                        ToastNotificationVariant::Success,
                    ));
                } else {
                    toasts.push(ToastNotificationRequest::new(
                        String::from_str("Error while editing event."),
                        None,
                        ToastNotificationVariant::Error,
                    ));
                }
                assert(toasts_view(toasts@) =~= drain_toasts_step(toasts_view(t0), TimelineUpdate::MessageEdited { timeline_event_id, succeeded }));
                self.on_other(tl, cont, TimelineUpdate::MessageEdited { timeline_event_id, succeeded });
            },
            other => self.on_other(tl, cont, other),
        }
    }
}

impl RoomScreen {
    /// Applies every pending update of the shown room, in order. Nothing is applied to a
    /// hidden room. When at least one update was applied, one snapshot of the room goes to
    /// the UI; when the timeline was emptied, backward pagination is requested once the
    /// drain is over.
    pub fn process_timeline_updates(&mut self, updates: Vec<TimelineUpdate>) -> (r: DrainOutcome)
        ensures
            old(self).tl_state is None ==> *final(self) == *old(self) && !r.push_state
                && r.requests@.len() == 0 && r.toasts@.len() == 0,
            old(self).tl_state is Some ==> {
                let tl0 = old(self).tl_state.unwrap();
                let m = tl_steps(model_of(*old(self), tl0, false), updates@);
                &&& final(self).tl_state is Some
                &&& model_of(*final(self), final(self).tl_state.unwrap(), m.continue_pagination) == m
                &&& final(self).tl_state.unwrap().room_id == tl0.room_id
                &&& final(self).room_id == old(self).room_id
                &&& final(self).room_name == old(self).room_name
                &&& r.push_state == (updates@.len() > 0)
                &&& request_views(r.requests@) == drain_requests(tl0.room_id@, updates@) + (if m.continue_pagination {
                    seq![RequestView::Paginate(tl0.room_id@, 50, PaginationDirection::Backwards)]
                } else {
                    Seq::empty()
                })
                &&& toasts_view(r.toasts@) == drain_toasts(updates@)
            },
    {
        let mut tl = match self.tl_state.take() {
            Some(t) => t,
            None => {
                return DrainOutcome { requests: Vec::new(), toasts: Vec::new(), push_state: false };
            },
        };
        let ghost s0 = *old(self);
        let ghost tl0 = tl;
        let ghost us = updates@;
        let n = updates.len();
        let mut pending = updates;
        let mut cont = false;
        let mut requests: Vec<TimelineRequest> = Vec::new();
        let mut toasts: Vec<ToastNotificationRequest> = Vec::new();
        let mut k: usize = 0;
        assert(us.subrange(0, 0) =~= Seq::<TimelineUpdate>::empty());
        assert(request_views(requests@) =~= Seq::empty());
        assert(toasts_view(toasts@) =~= Seq::empty());
        while pending.len() > 0
            invariant
                n == us.len(),
                k <= n,
                pending@ == us.subrange(k as int, n as int),
                model_of(*self, tl, cont) == tl_steps(model_of(s0, tl0, false), us.subrange(0, k as int)),
                self.room_id == s0.room_id,
                self.room_name == s0.room_name,
                self.tl_state is None,
                tl.room_id == tl0.room_id,
                request_views(requests@) == drain_requests(tl0.room_id@, us.subrange(0, k as int)),
                toasts_view(toasts@) == drain_toasts(us.subrange(0, k as int)),
            decreases pending@.len(),
        {
            let u = pending.remove(0);
            proof {
                let p = us.subrange(0, k as int + 1);
                assert(p.drop_last() =~= us.subrange(0, k as int));
                assert(p.last() == u);
                assert(pending@ =~= us.subrange(k as int + 1, n as int));
            }
            self.apply_one(&mut tl, &mut cont, u, &mut requests, &mut toasts);
            k = k + 1;
        }
        assert(us.subrange(0, n as int) =~= us);
        if cont {
            let ghost rq = requests@;
            requests.push(TimelineRequest::PaginateRoomTimeline {
                room_id: tl.room_id.clone(),
                num_events: 50,
                direction: PaginationDirection::Backwards,
            });
            assert(request_views(requests@) =~= request_views(rq).push(
                RequestView::Paginate(tl0.room_id@, 50, PaginationDirection::Backwards),
            ));
        } else {
            assert(request_views(requests@) =~= request_views(requests@) + Seq::<RequestView>::empty());
        }
        self.tl_state = Some(tl);
        DrainOutcome { requests, toasts, push_state: n > 0 }
    }

    /// Shows the room: reclaims its saved timeline state, or creates a fresh one the first
    /// time; then subscribes to its typing notices and read receipts, asks for its powers
    /// and members, and the first time (when not fully paginated) asks for one backward
    /// pagination of 50 events before anything else. Returns the requests and whether
    /// the room was shown for the first time.
    pub fn show_timeline(&mut self, states: &mut TimelineStates) -> (r: (Vec<TimelineRequest>, bool))
        requires
            old(self).tl_state is None,
        ensures
            ({
                let id = old(self).room_id@;
                let i = index_of(state_ids(old(states).states@), id);
                let first_time = i < 0;
                let opening = seq![
                    RequestView::GetRoomPowerLevels(id),
                    RequestView::SubscribeTyping(id, true),
                    RequestView::SubscribeReceipts(id, true),
                    RequestView::SyncMembers(id),
                ];
                &&& r.1 == first_time
                &&& first_time ==> {
                    &&& final(states).states@ == old(states).states@
                    &&& final(self).tl_state is Some
                    &&& final(self).tl_state.unwrap().room_id@ == id
                    &&& final(self).tl_state.unwrap().items@.len() == 0
                    &&& !final(self).tl_state.unwrap().fully_paginated
                    &&& final(self).tl_state.unwrap().user_power.is_all()
                    &&& !final(self).tl_state.unwrap().scrolled_past_read_marker
                    &&& final(self).tl_state.unwrap().latest_own_user_receipt is None
                    &&& request_views(r.0@) == seq![
                        RequestView::Paginate(id, 50, PaginationDirection::Backwards),
                    ] + opening
                }
                &&& !first_time ==> {
                    &&& final(states).states@ == old(states).states@.remove(i)
                    &&& final(self).tl_state == Some(old(states).states@[i])
                    &&& request_views(r.0@) == opening
                }
                &&& final(self).room_id == old(self).room_id
                &&& final(self).room_name == old(self).room_name
                &&& final(self).members == old(self).members
                &&& final(self).typing_users == old(self).typing_users
                &&& final(self).done_loading == old(self).done_loading
            }),
    {
        let room_id = self.room_id.clone();
        let (tl_state, first_time_showing_room) = match states.take(&room_id) {
            Some(existing) => (existing, false),
            None => (TimelineUiState::fresh(room_id.clone()), true),
        };
        let mut requests: Vec<TimelineRequest> = Vec::new();
        if first_time_showing_room && !tl_state.fully_paginated {
            requests.push(TimelineRequest::PaginateRoomTimeline {
                room_id: room_id.clone(),
                num_events: 50,
                direction: PaginationDirection::Backwards,
            });
        }
        requests.push(TimelineRequest::GetRoomPowerLevels { room_id: room_id.clone() });
        requests.push(TimelineRequest::SubscribeToTypingNotices { room_id: room_id.clone(), subscribe: true });
        requests.push(TimelineRequest::SubscribeToOwnUserReadReceiptsChanged {
            room_id: room_id.clone(),
            subscribe: true,
        });
        requests.push(TimelineRequest::SyncRoomMemberList { room_id: room_id.clone() });
        self.tl_state = Some(tl_state);
        proof {
            let id = room_id@;
            let opening = seq![
                RequestView::GetRoomPowerLevels(id),
                RequestView::SubscribeTyping(id, true),
                RequestView::SubscribeReceipts(id, true),
                RequestView::SyncMembers(id),
            ];
            if first_time_showing_room {
                assert(request_views(requests@) =~= seq![
                    RequestView::Paginate(id, 50, PaginationDirection::Backwards),
                ] + opening);
            } else {
                assert(request_views(requests@) =~= opening);
            }
        }
        (requests, first_time_showing_room)
    }

    /// Hides the room: its timeline state goes back to the map of saved states, and its
    /// typing-notice and read-receipt subscriptions are dropped.
    pub fn hide_timeline(&mut self, states: &mut TimelineStates) -> (r: Vec<TimelineRequest>)
        ensures
            final(self).tl_state is None,
            final(self).room_id == old(self).room_id,
            final(self).room_name == old(self).room_name,
            final(self).members == old(self).members,
            final(self).typing_users == old(self).typing_users,
            final(self).done_loading == old(self).done_loading,
            old(self).tl_state is None ==> final(states).states@ == old(states).states@,
            old(self).tl_state is Some ==> {
                let t = old(self).tl_state.unwrap();
                let i = index_of(state_ids(old(states).states@), t.room_id@);
                if i >= 0 {
                    final(states).states@ == old(states).states@.update(i, t)
                } else {
                    final(states).states@ == old(states).states@.push(t)
                }
            },
            final(states).states@ == saved_states(old(states).states@, old(self).tl_state),
            request_views(r@) == closing_requests(old(self).room_id@),
    {
        self.save_state(states);
        let mut requests: Vec<TimelineRequest> = Vec::new();
        requests.push(TimelineRequest::SubscribeToTypingNotices {
            room_id: self.room_id.clone(),
            subscribe: false,
        });
        requests.push(TimelineRequest::SubscribeToOwnUserReadReceiptsChanged {
            room_id: self.room_id.clone(),
            subscribe: false,
        });
        assert(request_views(requests@) =~= seq![
            RequestView::SubscribeTyping(self.room_id@, false),
            RequestView::SubscribeReceipts(self.room_id@, false),
        ]);
        requests
    }

    /// Moves the room's timeline state into the map of saved states.
    fn save_state(&mut self, states: &mut TimelineStates)
        ensures
            final(self).tl_state is None,
            final(self).room_id == old(self).room_id,
            final(self).room_name == old(self).room_name,
            final(self).members == old(self).members,
            final(self).typing_users == old(self).typing_users,
            final(self).done_loading == old(self).done_loading,
            old(self).tl_state is None ==> final(states).states@ == old(states).states@,
            old(self).tl_state is Some ==> {
                let t = old(self).tl_state.unwrap();
                let i = index_of(state_ids(old(states).states@), t.room_id@);
                if i >= 0 {
                    final(states).states@ == old(states).states@.update(i, t)
                } else {
                    final(states).states@ == old(states).states@.push(t)
                }
            },
    {
        match self.tl_state.take() {
            Some(tl) => states.save(tl),
            None => {},
        }
    }

    /// Switches the screen to another room: hides the current one (its state is saved and
    /// its subscriptions dropped), then shows the new one under its name, or under its id
    /// when it has none, reclaiming its saved state or starting a fresh one.
    pub fn set_displayed_room(
        &mut self,
        states: &mut TimelineStates,
        room_id: String,
        room_name: Option<String>,
    ) -> (r: Vec<TimelineRequest>)
        ensures
            ({
                let old_id = old(self).room_id@;
                let id = room_id@;
                let s1 = saved_states(old(states).states@, old(self).tl_state);
                let i = index_of(state_ids(s1), id);
                &&& final(self).room_id == room_id
                &&& final(self).room_name@ == (match room_name {
                    Some(n) => n@,
                    None => room_id@,
                })
                &&& final(self).members == old(self).members
                &&& final(self).typing_users == old(self).typing_users
                &&& final(self).done_loading == old(self).done_loading
                &&& i >= 0 ==> {
                    &&& final(self).tl_state == Some(s1[i])
                    &&& final(states).states@ == s1.remove(i)
                    &&& request_views(r@) == closing_requests(old_id) + opening_requests(id)
                }
                &&& i < 0 ==> {
                    &&& final(self).tl_state is Some
                    &&& final(self).tl_state.unwrap().room_id@ == id
                    &&& final(self).tl_state.unwrap().items@.len() == 0
                    &&& !final(self).tl_state.unwrap().fully_paginated
                    &&& final(self).tl_state.unwrap().user_power.is_all()
                    &&& !final(self).tl_state.unwrap().scrolled_past_read_marker
                    &&& final(self).tl_state.unwrap().latest_own_user_receipt is None
                    &&& final(states).states@ == s1
                    &&& request_views(r@) == closing_requests(old_id) + seq![
                        RequestView::Paginate(id, 50, PaginationDirection::Backwards),
                    ] + opening_requests(id)
                }
            }),
    {
        let mut requests = self.hide_timeline(states);
        self.room_name = match room_name {
            Some(n) => n,
            None => room_id.clone(),
        };
        self.room_id = room_id;
        let ghost first = requests@;
        let (more, _first_time) = self.show_timeline(states);
        let ghost second = more@;
        let mut more = more;
        requests.append(&mut more);
        assert(request_views(requests@) =~= request_views(first) + request_views(second));
        proof {
            let id = self.room_id@;
            assert(opening_requests(id) =~= seq![
                RequestView::GetRoomPowerLevels(id),
                RequestView::SubscribeTyping(id, true),
                RequestView::SubscribeReceipts(id, true),
                RequestView::SyncMembers(id),
            ]);
            assert(seq![RequestView::Paginate(id, 50, PaginationDirection::Backwards)] + opening_requests(id)
                =~= seq![RequestView::Paginate(id, 50, PaginationDirection::Backwards)] + opening_requests(id));
        }
        requests
    }
}

} // verus!
