use matrix_ui_serializable::consumer::{ItemDiff, TimelineConsumer};
use matrix_ui_serializable::models::{
    ClientSession, LoginState, MatrixClientConfig, MatrixRoomStoreCreateRequest,
    MatrixVerificationEmojis, OsNotificationRequest, ToastNotificationRequest,
    ToastNotificationVariant,
};
use matrix_ui_serializable::notifications::{truncate, truncate_clusters};
use matrix_ui_serializable::power_levels::{
    EventItemFlags, MessageAbilities, RoomPowerThresholds, UserPower, UserPowerLevels,
};
use matrix_ui_serializable::text::{contains_str, decimal};
use matrix_ui_serializable::timeline::{
    find_new_item_matching_current_item, FrontendRoomMember, PaginationDirection, RoomScreen,
    TimelineItem, TimelineRequest, TimelineStates, TimelineUpdate,
};

fn ev(id: &str) -> TimelineItem {
    TimelineItem::Event {
        unique_id: format!("u{id}"),
        event_id: Some(id.to_string()),
        sender: "@s:x".to_string(),
        timestamp: 1,
        is_own: false,
        is_local_echo: false,
    }
}

fn shown(room: &str, states: &mut TimelineStates) -> RoomScreen {
    let mut screen = RoomScreen::new(room.to_string(), "Room".to_string());
    screen.show_timeline(states);
    screen
}

#[test]
fn first_show_paginates_backwards_first() {
    let mut states = TimelineStates::new();
    let mut screen = RoomScreen::new("!r".to_string(), "Room".to_string());
    let (requests, first) = screen.show_timeline(&mut states);
    assert!(first);
    let paginations: Vec<&TimelineRequest> = requests
        .iter()
        .filter(|r| matches!(r, TimelineRequest::PaginateRoomTimeline { .. }))
        .collect();
    assert_eq!(paginations.len(), 1);
    match &requests[0] {
        TimelineRequest::PaginateRoomTimeline { room_id, num_events, direction } => {
            assert_eq!(room_id, "!r");
            assert_eq!(*num_events, 50);
            assert_eq!(*direction, PaginationDirection::Backwards);
        }
        _ => panic!("pagination must come first"),
    }
    // showing it again after hiding reclaims the state: no bootstrap pagination
    screen.hide_timeline(&mut states);
    let (requests, first) = screen.show_timeline(&mut states);
    assert!(!first);
    assert!(!requests.iter().any(|r| matches!(r, TimelineRequest::PaginateRoomTimeline { .. })));
    assert!(states.states.is_empty());
}

#[test]
fn hiding_unsubscribes_typing_and_stops_applying_updates() {
    let mut states = TimelineStates::new();
    let mut screen = shown("!r", &mut states);
    let out = screen.process_timeline_updates(vec![TimelineUpdate::TypingUsers { users: vec!["@a:x".to_string()] }]);
    assert!(out.push_state);
    assert_eq!(screen.typing_users, vec!["@a:x".to_string()]);
    let requests = screen.hide_timeline(&mut states);
    assert!(requests.iter().any(|r| matches!(r, TimelineRequest::SubscribeToTypingNotices { subscribe: false, .. })));
    assert!(requests.iter().any(|r| matches!(r, TimelineRequest::SubscribeToOwnUserReadReceiptsChanged { subscribe: false, .. })));
    assert!(screen.tl_state.is_none());
    assert_eq!(states.states.len(), 1);
    let out = screen.process_timeline_updates(vec![TimelineUpdate::TypingUsers { users: vec!["@b:x".to_string()] }]);
    assert!(!out.push_state);
    assert_eq!(screen.typing_users, vec!["@a:x".to_string()]);
}

#[test]
fn many_updates_make_one_push() {
    let mut states = TimelineStates::new();
    let mut screen = shown("!r", &mut states);
    let out = screen.process_timeline_updates(vec![
        TimelineUpdate::FirstUpdate { initial_items: vec![ev("$1")] },
        TimelineUpdate::NewItems { new_items: vec![ev("$1"), ev("$2")], clear_cache: false },
        TimelineUpdate::PaginationRunning(PaginationDirection::Backwards),
        TimelineUpdate::PaginationIdle { fully_paginated: true, direction: PaginationDirection::Backwards },
        TimelineUpdate::OwnUserReadReceipt("$2".to_string()),
    ]);
    assert!(out.push_state);
    let tl = screen.tl_state.as_ref().unwrap();
    assert_eq!(tl.items.len(), 2);
    assert!(tl.fully_paginated);
    assert!(screen.done_loading);
    assert_eq!(tl.latest_own_user_receipt, Some("$2".to_string()));
    let out = screen.process_timeline_updates(vec![]);
    assert!(!out.push_state);
}

#[test]
fn cleared_timeline_requests_pagination() {
    let mut states = TimelineStates::new();
    let mut screen = shown("!r", &mut states);
    screen.process_timeline_updates(vec![TimelineUpdate::FirstUpdate { initial_items: vec![ev("$1")] }]);
    let out = screen.process_timeline_updates(vec![TimelineUpdate::NewItems { new_items: vec![], clear_cache: true }]);
    assert_eq!(out.requests.len(), 1);
    assert!(matches!(out.requests[0], TimelineRequest::PaginateRoomTimeline { num_events: 50, .. }));
    assert!(!screen.tl_state.as_ref().unwrap().fully_paginated);
    // a found target cancels the continuation
    screen.process_timeline_updates(vec![TimelineUpdate::FirstUpdate { initial_items: vec![ev("$1")] }]);
    let out = screen.process_timeline_updates(vec![
        TimelineUpdate::NewItems { new_items: vec![], clear_cache: false },
        TimelineUpdate::TargetEventFound { target_event_id: "$1".to_string(), index: 0 },
    ]);
    assert_eq!(out.requests.len(), 1);
    assert!(matches!(out.requests[0], TimelineRequest::ClearTargetEventRequests { .. }));
}

#[test]
fn members_merge_by_user_id_and_edits_notify() {
    let mut states = TimelineStates::new();
    let mut screen = shown("!r", &mut states);
    let m = |id: &str, name: &str| FrontendRoomMember {
        user_id: id.to_string(),
        name: name.to_string(),
        max_power_level: UserPower::Int(0),
        display_name_ambiguous: false,
        is_ignored: false,
    };
    screen.process_timeline_updates(vec![TimelineUpdate::RoomMembersListFetched { members: vec![m("@a", "A"), m("@b", "B")] }]);
    let out = screen.process_timeline_updates(vec![
        TimelineUpdate::RoomMembersListFetched { members: vec![m("@a", "A2")] },
        TimelineUpdate::MessageEdited { timeline_event_id: "$1".to_string(), succeeded: false },
    ]);
    assert_eq!(screen.members.len(), 2);
    assert_eq!(screen.members[0].name, "A2");
    assert_eq!(out.toasts.len(), 1);
    assert_eq!(out.toasts[0].message, "Error while editing event.");
    assert_eq!(out.toasts[0].variant, ToastNotificationVariant::Error);
}

#[test]
fn view_jump_detection_finds_first_item() {
    let curr = vec![ev("$1"), ev("$2")];
    let new = vec![ev("$0"), ev("$1"), ev("$2")];
    let r = find_new_item_matching_current_item(0, 1, &curr, &new);
    assert_eq!(r, Some((0, 1, "$1".to_string())));
    assert_eq!(find_new_item_matching_current_item(0, 1, &curr, &vec![ev("$9")]), None);
}

#[test]
fn switching_rooms_saves_and_restores() {
    let mut states = TimelineStates::new();
    let mut screen = shown("!a", &mut states);
    screen.process_timeline_updates(vec![TimelineUpdate::FirstUpdate { initial_items: vec![ev("$1")] }]);
    screen.set_displayed_room(&mut states, "!b".to_string(), None);
    assert_eq!(screen.room_name, "!b");
    assert_eq!(states.states.len(), 1);
    screen.set_displayed_room(&mut states, "!a".to_string(), Some("A".to_string()));
    assert_eq!(screen.tl_state.as_ref().unwrap().items.len(), 1);
    assert_eq!(screen.room_name, "A");
}

#[test]
fn power_levels_from_thresholds() {
    let t = RoomPowerThresholds {
        ban: 50, invite: 0, kick: 50, redact: 50, notify_room: 50, location: 0, message: 0,
        reaction: 0, room_message: 0, room_redaction: 0, sticker: 0, room_avatar: 50,
        room_name: 50, room_pinned_events: 50, room_topic: 50,
    };
    let user = UserPowerLevels::from(&t, UserPower::Int(0));
    assert!(!user.ban && user.invite && user.reaction && !user.room_topic);
    assert!(!user._can_unban());
    assert!(user._can_send_message());
    let admin = UserPowerLevels::from(&t, UserPower::Int(100));
    assert!(admin._can_unban() && admin._can_redact_others() && admin._can_pin());
    let creator = UserPowerLevels::from(&t, UserPower::Infinite);
    assert_eq!(creator, UserPowerLevels::all());
    let own = EventItemFlags { is_editable: true, is_own: true, can_be_replied_to: true };
    let a = MessageAbilities::from_user_power_and_event(&user, &own);
    assert!(a.can_edit && a.can_delete && a.can_reply_to && a.can_react && !a.can_pin && !a.can_unpin);
    let other = EventItemFlags { is_editable: false, is_own: false, can_be_replied_to: false };
    let b = MessageAbilities::from_user_power_and_event(&admin, &other);
    assert!(!b.can_delete && b.can_pin && !b.can_edit);
}

#[test]
fn models_and_signals() {
    let t = ToastNotificationRequest::new("m".to_string(), Some("d".to_string()), ToastNotificationVariant::Info);
    assert_eq!(t.variant, ToastNotificationVariant::Description);
    let t = ToastNotificationRequest::new("m".to_string(), None, ToastNotificationVariant::Info);
    assert_eq!(t.variant, ToastNotificationVariant::Info);
    assert_eq!(LoginState::AwaitingForLogin.to_camel_case(), "awaitingForLogin");
    assert_eq!(LoginState::LoggedIn.to_camel_case(), "loggedIn");
    let c = MatrixClientConfig::new("bob".to_string(), "pw".to_string(), "https://h".to_string(), "app".to_string());
    assert_eq!(c.username(), "bob");
    let s = ClientSession::new("h".to_string(), "/db".to_string(), "SECRET-REDACTED".to_string());
    assert_eq!(s.db_path, "/db");
    assert_eq!(MatrixVerificationEmojis::new("x".to_string()).emojis, "x");
    assert_eq!(MatrixRoomStoreCreateRequest::new("!r".to_string()).id, "!r");
    assert_eq!(OsNotificationRequest::new("s".to_string(), None).summary, "s");
}

#[test]
fn text_helpers() {
    assert_eq!(decimal(0), "0");
    assert_eq!(decimal(1234567), "1234567");
    assert!(contains_str("hello world", "o w"));
    assert!(contains_str("abc", ""));
    assert!(!contains_str("abc", "abcd"));
    assert!(!contains_str("abc", "ac"));
}

#[test]
fn truncate_cuts_long_bodies() {
    let short = "héllo".to_string();
    assert_eq!(truncate(short.clone()), short);
    let long: String = "ab".repeat(2600);
    let t = truncate(long.clone());
    assert_eq!(t.len(), 5000 + 3);
    assert!(t.ends_with("..."));
    assert_eq!(&t[..5000], &long[..5000]);
    // combining marks stay with their base character
    let accented: String = "e\u{301}".repeat(5001);
    let t = truncate(accented);
    assert_eq!(t, format!("{}...", "e\u{301}".repeat(5000)));
    let clusters: Vec<String> = (0..5001).map(|i| if i == 0 { "x".to_string() } else { "y".to_string() }).collect();
    let t = truncate_clusters("ignored".to_string(), &clusters);
    assert_eq!(t, format!("x{}...", "y".repeat(4999)));
    let few = vec!["a".to_string(), "b".to_string()];
    assert_eq!(truncate_clusters("ab".to_string(), &few), "ab");
}

#[test]
fn switching_rooms_asks_in_order() {
    let mut states = TimelineStates::new();
    let mut screen = shown("!a", &mut states);
    let requests = screen.set_displayed_room(&mut states, "!b".to_string(), Some("B".to_string()));
    assert_eq!(requests.len(), 2 + 1 + 4);
    assert!(matches!(&requests[0], TimelineRequest::SubscribeToTypingNotices { room_id, subscribe: false } if room_id == "!a"));
    assert!(matches!(&requests[1], TimelineRequest::SubscribeToOwnUserReadReceiptsChanged { room_id, subscribe: false } if room_id == "!a"));
    assert!(matches!(&requests[2], TimelineRequest::PaginateRoomTimeline { room_id, num_events: 50, direction: PaginationDirection::Backwards } if room_id == "!b"));
    assert!(matches!(&requests[3], TimelineRequest::GetRoomPowerLevels { room_id } if room_id == "!b"));
    assert!(matches!(&requests[6], TimelineRequest::SyncRoomMemberList { room_id } if room_id == "!b"));
    let requests = screen.set_displayed_room(&mut states, "!a".to_string(), None);
    assert_eq!(requests.len(), 2 + 4);
    assert_eq!(states.states.len(), 1);
    assert_eq!(states.states[0].room_id, "!b");
}

#[test]
fn consumer_sends_first_update_then_new_items() {
    let mut c = TimelineConsumer::new();
    assert!(c.on_diffs(vec![ItemDiff::Clear]).is_none());
    match c.on_diffs(vec![ItemDiff::PushBack { value: ev("$1") }, ItemDiff::PushBack { value: ev("$2") }]) {
        Some(TimelineUpdate::FirstUpdate { initial_items }) => assert_eq!(initial_items.len(), 2),
        _ => panic!("expected the first update"),
    }
    match c.on_diffs(vec![ItemDiff::Remove { index: 0 }, ItemDiff::Insert { index: 5, value: ev("$9") }]) {
        Some(TimelineUpdate::NewItems { new_items, clear_cache }) => {
            assert_eq!(new_items.len(), 1);
            assert!(!clear_cache);
        }
        _ => panic!("expected new items"),
    }
    match c.on_diffs(vec![ItemDiff::Reset { values: vec![ev("$3")] }]) {
        Some(TimelineUpdate::NewItems { new_items, clear_cache }) => {
            assert_eq!(new_items.len(), 1);
            assert!(clear_cache);
        }
        _ => panic!("expected new items"),
    }
}
