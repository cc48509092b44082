use matrix_ui_serializable::user_profile::{
    UserProfile, UserProfileCacheEntry, UserProfileMap, UserProfileUpdate,
};

fn profile(id: &str, name: Option<&str>) -> UserProfile {
    UserProfile { user_id: id.to_string(), username: name.map(|n| n.to_string()), avatar_url: None }
}

#[test]
fn displayable_name_falls_back_to_id() {
    assert_eq!(profile("@a:x", Some("Alice"))._displayable_name(), "Alice");
    assert_eq!(profile("@a:x", Some(""))._displayable_name(), "@a:x");
    assert_eq!(profile("@a:x", None)._displayable_name(), "@a:x");
}

#[test]
fn fetch_marks_requested_once() {
    let mut cache = UserProfileMap::new();
    assert!(!cache.fetch_user_profile("@a:x".to_string()));
    assert!(cache.fetch_user_profile("@a:x".to_string()));
    assert_eq!(cache.slots.len(), 1);
    assert!(matches!(cache.slots[0].entry, UserProfileCacheEntry::Requested));
}

#[test]
fn updates_fill_and_merge_entries() {
    let mut cache = UserProfileMap::new();
    cache.fetch_user_profile("@a:x".to_string());
    cache.apply_to_cache(UserProfileUpdate::Full { new_profile: profile("@a:x", Some("A")), room_id: "!r1".to_string() });
    cache.apply_to_cache(UserProfileUpdate::RoomMemberOnly { room_id: "!r2".to_string(), user_id: "@a:x".to_string(), avatar_url: None });
    cache.apply_to_cache(UserProfileUpdate::RoomMemberOnly { room_id: "!r1".to_string(), user_id: "@a:x".to_string(), avatar_url: None });
    match &cache.slots[0].entry {
        UserProfileCacheEntry::Loaded { user_profile, rooms } => {
            assert_eq!(user_profile.username, Some("A".to_string()));
            assert_eq!(rooms, &vec!["!r1".to_string(), "!r2".to_string()]);
        }
        _ => panic!("expected a loaded profile"),
    }
    cache.apply_to_cache(UserProfileUpdate::UserProfileOnly(profile("@a:x", Some("A2"))));
    match &cache.slots[0].entry {
        UserProfileCacheEntry::Loaded { user_profile, rooms } => {
            assert_eq!(user_profile.username, Some("A2".to_string()));
            assert_eq!(rooms.len(), 2);
        }
        _ => panic!("expected a loaded profile"),
    }
    cache.apply_to_cache(UserProfileUpdate::RoomMemberOnly { room_id: "!r3".to_string(), user_id: "@b:x".to_string(), avatar_url: Some("mxc://b".to_string()) });
    assert_eq!(cache.slots.len(), 2);
    match &cache.slots[1].entry {
        UserProfileCacheEntry::Loaded { user_profile, rooms } => {
            assert_eq!(user_profile.username, None);
            assert_eq!(user_profile.avatar_url, Some("mxc://b".to_string()));
            assert_eq!(rooms, &vec!["!r3".to_string()]);
        }
        _ => panic!("expected a loaded profile"),
    }
    cache.apply_to_cache(UserProfileUpdate::UserProfileOnly(profile("@c:x", None)));
    match &cache.slots[2].entry {
        UserProfileCacheEntry::Loaded { rooms, .. } => assert!(rooms.is_empty()),
        _ => panic!("expected a loaded profile"),
    }
}
