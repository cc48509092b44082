use matrix_ui_serializable::display::{generate_displayed_joined_rooms, RoomDisplayFilter};
use matrix_ui_serializable::models::UnreadMessageCount;
use matrix_ui_serializable::power_levels::UserPowerLevels;
use matrix_ui_serializable::reconciler::{ReconcilerEffect, RoomDiff, RoomListReconciler};
use matrix_ui_serializable::room::{
    InviteState, InvitedRoomInfo, JoinedRoomInfo, LatestEvent, RoomDisplayName,
    RoomsCollectionStatus, RoomsListUpdate, RoomState,
};
use matrix_ui_serializable::rooms_list::{ActiveRoomAction, RoomsList};
use matrix_ui_serializable::snapshot::{joined_room_info, RoomSnapshot};

fn snapshot(id: &str, state: RoomState) -> RoomSnapshot {
    RoomSnapshot {
        room_id: id.to_string(),
        state,
        is_direct: false,
        is_tombstoned: false,
        tags: None,
        topic: None,
        user_power_levels: None,
        num_unread_messages: 0,
        num_unread_mentions: 0,
        display_name: Some(RoomDisplayName::Named(format!("name of {id}"))),
        room_avatar: None,
        heroes: vec![],
        canonical_alias: None,
        alt_aliases: vec![],
        direct_targets: vec![],
        latest: None,
        inviter: None,
    }
}

fn joined(id: &str, name: &str, ts: Option<u64>, direct: bool) -> JoinedRoomInfo {
    JoinedRoomInfo {
        room_id: id.to_string(),
        room_name: RoomDisplayName::Named(name.to_string()),
        num_unread_messages: 0,
        num_unread_mentions: 0,
        canonical_alias: None,
        alt_aliases: vec![],
        tags: vec![],
        topic: None,
        latest: ts.map(|t| LatestEvent { timestamp: t, text: String::new() }),
        avatar: None,
        has_been_paginated: false,
        is_selected: false,
        is_direct: direct,
        direct_user_id: None,
        is_tombstoned: false,
        heroes: vec![],
    }
}

fn invited(id: &str) -> InvitedRoomInfo {
    InvitedRoomInfo {
        room_id: id.to_string(),
        room_name: RoomDisplayName::Named(format!("invite {id}")),
        inviter_info: None,
        room_avatar: None,
        canonical_alias: None,
        alt_aliases: vec![],
        latest: None,
        invite_state: InviteState::WaitingOnUserInput,
        is_direct: false,
    }
}

/// Performs the reconciler's effects on the rooms list the way the worker does, counting
/// live sessions.
fn perform(list: &mut RoomsList, sessions: &mut Vec<String>, effects: Vec<ReconcilerEffect>) -> Vec<RoomsListUpdate> {
    let mut updates = vec![];
    for e in effects {
        match e {
            ReconcilerEffect::CreateJoinedSession { room_id, info } => {
                sessions.push(room_id);
                updates.push(RoomsListUpdate::AddJoinedRoom(info));
            }
            ReconcilerEffect::TearDownSession { room_id } => sessions.retain(|r| *r != room_id),
            ReconcilerEffect::ClearSessions => sessions.clear(),
            ReconcilerEffect::Enqueue(u) => updates.push(u),
            ReconcilerEffect::RefreshLatestEvent { .. } => {}
            ReconcilerEffect::SendPowerLevels { .. } => {}
        }
    }
    let _ = list;
    updates
}

fn kinds(updates: &[RoomsListUpdate]) -> Vec<&'static str> {
    updates
        .iter()
        .map(|u| match u {
            RoomsListUpdate::AddInvitedRoom(_) => "add_invited",
            RoomsListUpdate::AddJoinedRoom(_) => "add_joined",
            RoomsListUpdate::RemoveRoom { .. } => "remove",
            RoomsListUpdate::TombstonedRoom { .. } => "tombstoned",
            RoomsListUpdate::ClearRooms => "clear",
            RoomsListUpdate::UpdateIsDirect { .. } => "is_direct",
            RoomsListUpdate::UpdateRoomName { .. } => "name",
            _ => "other",
        })
        .collect()
}

#[test]
fn invited_then_joined_moves_between_lists() {
    let mut rec = RoomListReconciler::new();
    let mut list = RoomsList::new();
    let mut sessions = vec![];
    let effects = rec.apply_batch(vec![RoomDiff::Append { values: vec![snapshot("!a", RoomState::Invited)] }]);
    let updates = perform(&mut list, &mut sessions, effects);
    assert_eq!(kinds(&updates), vec!["add_invited"]);
    list.handle_rooms_list_updates(updates);
    assert_eq!(list.displayed_invited_rooms, vec!["!a".to_string()]);
    assert!(sessions.is_empty());

    let effects = rec.apply_batch(vec![RoomDiff::SetValue { index: 0, value: snapshot("!a", RoomState::Joined) }]);
    let updates = perform(&mut list, &mut sessions, effects);
    assert_eq!(kinds(&updates), vec!["add_joined"]);
    list.handle_rooms_list_updates(updates);
    assert!(list.displayed_invited_rooms.is_empty());
    assert_eq!(list.displayed_regular_rooms, vec!["!a".to_string()]);
    assert!(list.displayed_direct_rooms.is_empty());
    assert_eq!(sessions, vec!["!a".to_string()]);
}

#[test]
fn invited_then_joined_direct_room_is_listed_as_direct() {
    let mut rec = RoomListReconciler::new();
    let mut list = RoomsList::new();
    let mut sessions = vec![];
    let mut s = snapshot("!d", RoomState::Invited);
    s.is_direct = true;
    let u = perform(&mut list, &mut sessions, rec.apply_batch(vec![RoomDiff::PushBack { value: s }]));
    list.handle_rooms_list_updates(u);
    let mut s = snapshot("!d", RoomState::Joined);
    s.is_direct = true;
    let u = perform(&mut list, &mut sessions, rec.apply_batch(vec![RoomDiff::SetValue { index: 0, value: s }]));
    list.handle_rooms_list_updates(u);
    assert_eq!(list.displayed_direct_rooms, vec!["!d".to_string()]);
    assert!(list.displayed_regular_rooms.is_empty());
    assert!(list.displayed_invited_rooms.is_empty());
}

#[test]
fn tombstone_emits_one_event_and_sets_flag() {
    let mut rec = RoomListReconciler::new();
    let mut list = RoomsList::new();
    let mut sessions = vec![];
    let u = perform(&mut list, &mut sessions, rec.apply_batch(vec![RoomDiff::PushBack { value: snapshot("!t", RoomState::Joined) }]));
    list.handle_rooms_list_updates(u);
    let mut s = snapshot("!t", RoomState::Joined);
    s.is_tombstoned = true;
    let u = perform(&mut list, &mut sessions, rec.apply_batch(vec![RoomDiff::SetValue { index: 0, value: s }]));
    assert_eq!(kinds(&u).iter().filter(|k| **k == "tombstoned").count(), 1);
    list.handle_rooms_list_updates(u);
    assert!(list.all_joined_rooms[0].is_tombstoned);
    // the filter does not exclude tombstoned rooms, so the room stays displayed
    assert_eq!(list.displayed_regular_rooms, vec!["!t".to_string()]);
    // a second snapshot that is still tombstoned emits nothing more
    let mut s = snapshot("!t", RoomState::Joined);
    s.is_tombstoned = true;
    let u = perform(&mut list, &mut sessions, rec.apply_batch(vec![RoomDiff::SetValue { index: 0, value: s }]));
    assert_eq!(kinds(&u).iter().filter(|k| **k == "tombstoned").count(), 0);
}

#[test]
fn remove_then_insert_keeps_the_session() {
    let mut rec = RoomListReconciler::new();
    let mut list = RoomsList::new();
    let mut sessions = vec![];
    let u = perform(&mut list, &mut sessions, rec.apply_batch(vec![RoomDiff::Append {
        values: vec![snapshot("!a", RoomState::Joined), snapshot("!b", RoomState::Joined)],
    }]));
    list.handle_rooms_list_updates(u);
    let effects = rec.apply_batch(vec![
        RoomDiff::Remove { index: 1 },
        RoomDiff::Insert { index: 0, value: snapshot("!b", RoomState::Joined) },
    ]);
    assert!(effects.iter().all(|e| !matches!(e, ReconcilerEffect::TearDownSession { .. } | ReconcilerEffect::CreateJoinedSession { .. })));
    let ids: Vec<&str> = rec.mirror.iter().map(|s| s.room_id.as_str()).collect();
    assert_eq!(ids, vec!["!b", "!a"]);

    // the same two diffs in separate batches tear the session down and rebuild it
    let e1 = rec.apply_batch(vec![RoomDiff::Remove { index: 0 }]);
    assert!(matches!(e1[0], ReconcilerEffect::TearDownSession { .. }));
    let e2 = rec.apply_batch(vec![RoomDiff::Insert { index: 0, value: snapshot("!b", RoomState::Joined) }]);
    assert!(matches!(e2[0], ReconcilerEffect::CreateJoinedSession { .. }));
    let ids: Vec<&str> = rec.mirror.iter().map(|s| s.room_id.as_str()).collect();
    assert_eq!(ids, vec!["!b", "!a"]);
}

#[test]
fn mirror_length_follows_the_diffs() {
    let mut rec = RoomListReconciler::new();
    rec.apply_batch(vec![
        RoomDiff::Append { values: vec![snapshot("!a", RoomState::Joined), snapshot("!b", RoomState::Joined)] },
        RoomDiff::PushFront { value: snapshot("!c", RoomState::Invited) },
        RoomDiff::PushBack { value: snapshot("!d", RoomState::Left) },
        RoomDiff::Insert { index: 1, value: snapshot("!e", RoomState::Joined) },
        RoomDiff::PopBack,
        RoomDiff::Remove { index: 0 },
    ]);
    assert_eq!(rec.mirror.len(), 2 + 1 + 1 + 1 - 1 - 1);
    rec.apply_batch(vec![RoomDiff::Truncate { length: 1 }]);
    assert_eq!(rec.mirror.len(), 1);
    rec.apply_batch(vec![RoomDiff::Reset { values: vec![snapshot("!x", RoomState::Joined), snapshot("!y", RoomState::Joined), snapshot("!z", RoomState::Joined)] }]);
    assert_eq!(rec.mirror.len(), 3);
    rec.apply_batch(vec![RoomDiff::Clear]);
    assert_eq!(rec.mirror.len(), 0);
}

#[test]
fn out_of_bounds_diffs_are_skipped() {
    let mut rec = RoomListReconciler::new();
    let e = rec.apply_batch(vec![
        RoomDiff::Remove { index: 3 },
        RoomDiff::SetValue { index: 0, value: snapshot("!a", RoomState::Joined) },
        RoomDiff::Insert { index: 2, value: snapshot("!a", RoomState::Joined) },
        RoomDiff::PopFront,
    ]);
    assert!(e.is_empty());
    assert!(rec.mirror.is_empty());
}

#[test]
fn each_room_is_added_once_and_removed_once() {
    let mut rec = RoomListReconciler::new();
    let mut list = RoomsList::new();
    let mut sessions = vec![];
    let mut balance = std::collections::HashMap::<String, i64>::new();
    let batches = vec![
        vec![RoomDiff::Append { values: vec![snapshot("!a", RoomState::Joined), snapshot("!b", RoomState::Invited)] }],
        vec![RoomDiff::Remove { index: 0 }, RoomDiff::PushBack { value: snapshot("!a", RoomState::Joined) }],
        vec![RoomDiff::PopFront],
        vec![RoomDiff::PushFront { value: snapshot("!b", RoomState::Invited) }],
        vec![RoomDiff::Truncate { length: 0 }],
    ];
    for b in batches {
        let u = perform(&mut list, &mut sessions, rec.apply_batch(b));
        for x in &u {
            match x {
                RoomsListUpdate::AddInvitedRoom(i) => *balance.entry(i.room_id.clone()).or_default() += 1,
                RoomsListUpdate::AddJoinedRoom(i) => *balance.entry(i.room_id.clone()).or_default() += 1,
                RoomsListUpdate::RemoveRoom { room_id, .. } => *balance.entry(room_id.clone()).or_default() -= 1,
                _ => {}
            }
        }
        assert!(balance.values().all(|v| *v == 0 || *v == 1));
        list.handle_rooms_list_updates(u);
    }
    assert!(balance.values().all(|v| *v == 0));
    assert!(list.all_joined_rooms.is_empty() && list.invited_rooms.is_empty());
}

#[test]
fn joined_info_is_built_from_the_snapshot() {
    let mut s = snapshot("!a", RoomState::Joined);
    s.is_direct = true;
    s.direct_targets = vec!["@bob:x".to_string()];
    s.tags = Some(vec!["m.favourite".to_string()]);
    s.num_unread_messages = 4;
    let info = joined_room_info(&s);
    assert_eq!(info.direct_user_id, Some("@bob:x".to_string()));
    assert_eq!(info.tags, vec!["m.favourite".to_string()]);
    assert_eq!(info.num_unread_messages, 4);
    assert!(!info.has_been_paginated);
    s.display_name = None;
    assert!(matches!(joined_room_info(&s).room_name, RoomDisplayName::Empty));
}

#[test]
fn power_level_changes_go_to_the_session() {
    let mut rec = RoomListReconciler::new();
    rec.apply_batch(vec![RoomDiff::PushBack { value: snapshot("!p", RoomState::Joined) }]);
    let mut s = snapshot("!p", RoomState::Joined);
    s.user_power_levels = Some(UserPowerLevels::empty());
    let e = rec.apply_batch(vec![RoomDiff::SetValue { index: 0, value: s }]);
    assert!(e.iter().any(|x| matches!(x, ReconcilerEffect::SendPowerLevels { .. })));
    assert!(e.iter().any(|x| matches!(x, ReconcilerEffect::RefreshLatestEvent { .. })));
}

#[test]
fn display_lists_sort_by_latest_message() {
    let rooms = vec![
        joined("!old", "Old", Some(10), false),
        joined("!none", "None", None, false),
        joined("!new", "New", Some(30), false),
        joined("!dm", "Dm", Some(20), true),
        joined("!tie", "Tie", Some(10), false),
    ];
    let (regular, direct) = generate_displayed_joined_rooms(&rooms, &RoomDisplayFilter::default_filter());
    assert_eq!(regular, vec!["!new", "!old", "!tie", "!none"]);
    assert_eq!(direct, vec!["!dm"]);
}

#[test]
fn filter_keeps_matching_rooms_and_is_idempotent() {
    let mut list = RoomsList::new();
    list.handle_rooms_list_updates(vec![
        RoomsListUpdate::AddJoinedRoom(joined("!1", "Rust lovers", Some(5), false)),
        RoomsListUpdate::AddJoinedRoom(joined("!2", "Cooking", Some(6), false)),
        RoomsListUpdate::ApplyFilter { keywords: "Rust".to_string() },
    ]);
    assert_eq!(list.displayed_regular_rooms, vec!["!1".to_string()]);
    match &list.status {
        RoomsCollectionStatus::Loaded(m) => assert_eq!(m, "Found 1 matching room."),
        _ => panic!("wrong status"),
    }
    let first = list.displayed_regular_rooms.clone();
    list.handle_rooms_list_updates(vec![RoomsListUpdate::ApplyFilter { keywords: "Rust".to_string() }]);
    assert_eq!(list.displayed_regular_rooms, first);
    list.handle_rooms_list_updates(vec![RoomsListUpdate::ApplyFilter { keywords: "zzz".to_string() }]);
    match &list.status {
        RoomsCollectionStatus::Loaded(m) => assert_eq!(m, "No matching rooms found."),
        _ => panic!("wrong status"),
    }
}

#[test]
fn status_counts_loaded_rooms() {
    let mut list = RoomsList::new();
    match &list.status {
        RoomsCollectionStatus::NotLoaded(m) => assert_eq!(m, "Initiating"),
        _ => panic!("wrong status"),
    }
    list.apply_update(RoomsListUpdate::NotLoaded);
    match &list.status {
        RoomsCollectionStatus::Loading(m) => assert_eq!(m, "Loading rooms (waiting for homeserver)..."),
        _ => panic!("wrong status"),
    }
    // a batch ends by recounting the rooms
    list.handle_rooms_list_updates(vec![RoomsListUpdate::NotLoaded]);
    match &list.status {
        RoomsCollectionStatus::Loaded(m) => assert_eq!(m, "Loaded 0 rooms."),
        _ => panic!("wrong status"),
    }
    list.handle_rooms_list_updates(vec![
        RoomsListUpdate::LoadedRooms { max_rooms: Some(12) },
        RoomsListUpdate::AddJoinedRoom(joined("!1", "One", None, false)),
        RoomsListUpdate::AddInvitedRoom(invited("!2")),
    ]);
    match &list.status {
        RoomsCollectionStatus::Loading(m) => assert_eq!(m, "Loaded 2 of 12 total rooms."),
        _ => panic!("wrong status"),
    }
    list.handle_rooms_list_updates(vec![RoomsListUpdate::LoadedRooms { max_rooms: Some(2) }]);
    match &list.status {
        RoomsCollectionStatus::Loaded(m) => assert_eq!(m, "Loaded 2 of 2 total rooms."),
        _ => panic!("wrong status"),
    }
    list.handle_rooms_list_updates(vec![RoomsListUpdate::LoadedRooms { max_rooms: None }]);
    match &list.status {
        RoomsCollectionStatus::Loaded(m) => assert_eq!(m, "Loaded 2 rooms."),
        _ => panic!("wrong status"),
    }
}

#[test]
fn is_direct_change_moves_room_and_notifies() {
    let mut list = RoomsList::new();
    list.handle_rooms_list_updates(vec![RoomsListUpdate::AddJoinedRoom(joined("!1", "One", None, false))]);
    let out = list.handle_rooms_list_updates(vec![RoomsListUpdate::UpdateIsDirect { room_id: "!1".to_string(), is_direct: true }]);
    assert_eq!(out.toasts.len(), 1);
    assert_eq!(out.toasts[0].message, "!1 was changed from regular to direct.");
    assert_eq!(list.displayed_direct_rooms, vec!["!1".to_string()]);
    assert!(list.displayed_regular_rooms.is_empty());
}

#[test]
fn rooms_list_pushes_once_per_batch() {
    let mut list = RoomsList::new();
    let out = list.handle_rooms_list_updates(vec![]);
    assert!(!out.push_state);
    let out = list.handle_rooms_list_updates(vec![
        RoomsListUpdate::AddJoinedRoom(joined("!1", "One", None, false)),
        RoomsListUpdate::UpdateNumUnreadMessages { room_id: "!1".to_string(), unread_messages: UnreadMessageCount::Known(3), unread_mentions: 1 },
        RoomsListUpdate::UpdateTopic { room_id: "!1".to_string(), new_topic: "t".to_string() },
    ]);
    assert!(out.push_state);
    assert_eq!(out.store_requests, vec!["!1".to_string()]);
    assert_eq!(list.all_joined_rooms[0].num_unread_messages, 3);
    assert_eq!(list.all_joined_rooms[0].num_unread_mentions, 1);
    assert_eq!(list.all_joined_rooms[0].topic, Some("t".to_string()));
    list.handle_rooms_list_updates(vec![RoomsListUpdate::UpdateNumUnreadMessages { room_id: "!1".to_string(), unread_messages: UnreadMessageCount::_Unknown, unread_mentions: 9 }]);
    assert_eq!(list.all_joined_rooms[0].num_unread_messages, 0);
    assert_eq!(list.all_joined_rooms[0].num_unread_mentions, 0);
}

#[test]
fn remove_and_clear_rooms() {
    let mut list = RoomsList::new();
    list.handle_rooms_list_updates(vec![
        RoomsListUpdate::AddJoinedRoom(joined("!1", "One", None, false)),
        RoomsListUpdate::AddInvitedRoom(invited("!2")),
        RoomsListUpdate::RemoveRoom { room_id: "!1".to_string(), new_state: RoomState::Left },
    ]);
    assert!(list.all_joined_rooms.is_empty());
    assert_eq!(list.displayed_invited_rooms, vec!["!2".to_string()]);
    list.handle_rooms_list_updates(vec![RoomsListUpdate::ClearRooms]);
    assert!(list.invited_rooms.is_empty());
    assert!(list.displayed_invited_rooms.is_empty());
}

#[test]
fn active_room_switching() {
    let mut list = RoomsList::new();
    assert_eq!(list.handle_current_active_room("!a".to_string()), ActiveRoomAction::Switch { cancel_previous: false });
    assert_eq!(list.handle_current_active_room("!a".to_string()), ActiveRoomAction::Unchanged);
    assert_eq!(list.handle_current_active_room("!b".to_string()), ActiveRoomAction::Switch { cancel_previous: true });
}

#[test]
fn clear_removes_each_room() {
    let mut rec = RoomListReconciler::new();
    rec.apply_batch(vec![RoomDiff::Append { values: vec![snapshot("!a", RoomState::Joined), snapshot("!b", RoomState::Invited)] }]);
    let e = rec.apply_batch(vec![RoomDiff::Clear]);
    let teardowns = e.iter().filter(|x| matches!(x, ReconcilerEffect::TearDownSession { .. })).count();
    let removes = e.iter().filter(|x| matches!(x, ReconcilerEffect::Enqueue(RoomsListUpdate::RemoveRoom { .. }))).count();
    assert_eq!(teardowns, 2);
    assert_eq!(removes, 2);
    assert!(matches!(e[e.len() - 1], ReconcilerEffect::Enqueue(RoomsListUpdate::ClearRooms)));
    assert!(rec.mirror.is_empty());
}

#[test]
fn joined_then_invited_leaves_the_joined_store() {
    let mut rec = RoomListReconciler::new();
    let mut list = RoomsList::new();
    let mut sessions = vec![];
    let u = perform(&mut list, &mut sessions, rec.apply_batch(vec![RoomDiff::PushBack { value: snapshot("!j", RoomState::Joined) }]));
    list.handle_rooms_list_updates(u);
    assert_eq!(sessions, vec!["!j".to_string()]);
    let u = perform(&mut list, &mut sessions, rec.apply_batch(vec![RoomDiff::SetValue { index: 0, value: snapshot("!j", RoomState::Invited) }]));
    assert_eq!(kinds(&u), vec!["add_invited"]);
    assert!(sessions.is_empty());
    list.handle_rooms_list_updates(u);
    assert!(list.all_joined_rooms.is_empty());
    assert!(list.displayed_regular_rooms.is_empty());
    assert_eq!(list.displayed_invited_rooms, vec!["!j".to_string()]);
}

#[test]
fn pop_then_push_keeps_the_session() {
    let mut rec = RoomListReconciler::new();
    rec.apply_batch(vec![RoomDiff::Append { values: vec![snapshot("!a", RoomState::Joined), snapshot("!b", RoomState::Joined)] }]);
    let e = rec.apply_batch(vec![RoomDiff::PopBack, RoomDiff::PushBack { value: snapshot("!b", RoomState::Joined) }]);
    assert!(e.iter().all(|x| !matches!(x, ReconcilerEffect::TearDownSession { .. } | ReconcilerEffect::CreateJoinedSession { .. })));
    let e = rec.apply_batch(vec![RoomDiff::PopFront, RoomDiff::PushFront { value: snapshot("!a", RoomState::Joined) }]);
    assert!(e.iter().all(|x| !matches!(x, ReconcilerEffect::TearDownSession { .. } | ReconcilerEffect::CreateJoinedSession { .. })));
    let ids: Vec<&str> = rec.mirror.iter().map(|s| s.room_id.as_str()).collect();
    assert_eq!(ids, vec!["!a", "!b"]);
}
