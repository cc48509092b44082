use vstd::prelude::*;
use crate::rooms_list::opt_view;
use crate::text::{distinct, index_of, lemma_distinct_push, lemma_index_of, position_of, push_id, views};

verus! {

/// What is known of a user: their id, default display name and avatar.
#[derive(Debug)]
pub struct UserProfile {
    pub user_id: String,
    /// The user's default display name; a room may show another one.
    pub username: Option<String>,
    pub avatar_url: Option<String>,
}

/// A profile as the contracts see it.
pub struct ProfileView {
    pub user_id: Seq<char>,
    pub username: Option<Seq<char>>,
    pub avatar_url: Option<Seq<char>>,
}

pub open spec fn profile_view(p: UserProfile) -> ProfileView {
    ProfileView { user_id: p.user_id@, username: opt_view(p.username), avatar_url: opt_view(p.avatar_url) }
}

impl UserProfile {
    /// The name to show: the display name when it is set and not empty, else the user id.
    pub fn _displayable_name(&self) -> (r: &str)
        ensures
            r@ == (match self.username {
                Some(n) => if n@.len() > 0 { n@ } else { self.user_id@ },
                None => self.user_id@,
            }),
    {
        if let Some(un) = &self.username {
            if un.as_str().unicode_len() > 0 {
                return un.as_str();
            }
        }
        self.user_id.as_str()
    }
}

/// The cache entry of a user: a request was issued, or the profile is known together
/// with the rooms in which the user was seen.
#[derive(Debug)]
pub enum UserProfileCacheEntry {
    Requested,
    Loaded { user_profile: UserProfile, rooms: Vec<String> },
}

pub enum EntryView {
    Requested,
    Loaded { profile: ProfileView, rooms: Seq<Seq<char>> },
}

pub open spec fn entry_view(e: UserProfileCacheEntry) -> EntryView {
    match e {
        UserProfileCacheEntry::Requested => EntryView::Requested,
        UserProfileCacheEntry::Loaded { user_profile, rooms } => EntryView::Loaded {
            profile: profile_view(user_profile),
            rooms: views(rooms@),
        },
    }
}

pub open spec fn opt_entry_view(o: Option<UserProfileCacheEntry>) -> Option<EntryView> {
    match o {
        Some(e) => Some(entry_view(e)),
        None => None,
    }
}

/// One user's slot in the cache.
#[derive(Debug)]
pub struct CacheSlot {
    pub user_id: String,
    pub entry: UserProfileCacheEntry,
}

/// The profile cache, keyed by user id.
#[derive(Debug)]
pub struct UserProfileMap {
    pub slots: Vec<CacheSlot>,
}

pub open spec fn slot_ids(s: Seq<CacheSlot>) -> Seq<Seq<char>> {
    s.map_values(|c: CacheSlot| c.user_id@)
}

pub open spec fn slots_view(s: Seq<CacheSlot>) -> Seq<(Seq<char>, EntryView)> {
    s.map_values(|c: CacheSlot| (c.user_id@, entry_view(c.entry)))
}

/// A change to the profile cache.
#[derive(Debug)]
pub enum UserProfileUpdate {
    /// A fetched profile, with the room in which the user is a member.
    Full { new_profile: UserProfile, room_id: String },
    /// The user's membership in a room, without profile changes.
    RoomMemberOnly { room_id: String, user_id: String, avatar_url: Option<String> },
    /// A fetched profile, without room membership.
    UserProfileOnly(UserProfile),
}

/// A set of room ids, kept as a list without repeats, after adding `r`.
pub open spec fn with_room(rooms: Seq<Seq<char>>, r: Seq<char>) -> Seq<Seq<char>> {
    if index_of(rooms, r) >= 0 { rooms } else { rooms.push(r) }
}

/// The cache entry of `key` after an update to it; `old` is its entry, if any.
pub open spec fn updated_entry(old: Option<EntryView>, u: UserProfileUpdate) -> EntryView {
    match u {
        UserProfileUpdate::Full { new_profile, room_id } => EntryView::Loaded {
            profile: profile_view(new_profile),
            rooms: match old {
                Some(EntryView::Loaded { rooms, .. }) => with_room(rooms, room_id@),
                _ => seq![room_id@],
            },
        },
        UserProfileUpdate::RoomMemberOnly { room_id, user_id, avatar_url } => match old {
            Some(EntryView::Loaded { profile, rooms }) => EntryView::Loaded {
                profile,
                rooms: with_room(rooms, room_id@),
            },
            _ => EntryView::Loaded {
                profile: ProfileView { user_id: user_id@, username: None, avatar_url: opt_view(avatar_url) },
                rooms: seq![room_id@],
            },
        },
        UserProfileUpdate::UserProfileOnly(p) => EntryView::Loaded {
            profile: profile_view(p),
            rooms: match old {
                Some(EntryView::Loaded { rooms, .. }) => rooms,
                _ => Seq::empty(),
            },
        },
    }
}

/// The user id an update is about.
pub open spec fn update_key(u: UserProfileUpdate) -> Seq<char> {
    match u {
        UserProfileUpdate::Full { new_profile, .. } => new_profile.user_id@,
        UserProfileUpdate::RoomMemberOnly { user_id, .. } => user_id@,
        UserProfileUpdate::UserProfileOnly(p) => p.user_id@,
    }
}

fn add_room(rooms: &mut Vec<String>, r: String)
    ensures
        views(final(rooms)@) == with_room(views(old(rooms)@), r@),
{
    match position_of(rooms, &r) {
        Some(_) => {},
        None => push_id(rooms, r),
    }
}

fn single_room(r: String) -> (v: Vec<String>)
    ensures
        views(v@) == seq![r@],
{
    let mut v: Vec<String> = Vec::new();
    push_id(&mut v, r);
    assert(views(v@) =~= seq![r@]);
    v
}

impl UserProfileMap {
    pub fn new() -> (r: Self)
        ensures
            r.slots@.len() == 0,
            distinct(slot_ids(r.slots@)),
    {
        let r = UserProfileMap { slots: Vec::new() };
        assert(slot_ids(r.slots@) =~= Seq::empty());
        r
    }

    fn index_of_user(&self, user_id: &String) -> (r: Option<usize>)
        ensures
            r is None <==> index_of(slot_ids(self.slots@), user_id@) < 0,
            r is Some ==> r.unwrap() as int == index_of(slot_ids(self.slots@), user_id@)
                && r.unwrap() < self.slots@.len(),
    {
        let ghost s = slot_ids(self.slots@);
        proof {
            lemma_index_of(s, user_id@);
        }
        let mut j: usize = 0;
        while j < self.slots.len()
            invariant
                s == slot_ids(self.slots@),
                j <= self.slots@.len(),
                index_of(s, user_id@) == crate::text::index_from(s, user_id@, j as int),
            decreases self.slots@.len() - j,
        {
            if self.slots[j].user_id == *user_id {
                return Some(j);
            }
            j = j + 1;
        }
        None
    }

    /// Applies an update: the user's entry is replaced by `updated_entry`, or added at the
    /// end when the user has none.
    pub fn apply_to_cache(&mut self, update: UserProfileUpdate)
        ensures
            ({
                let old_s = slots_view(old(self).slots@);
                let key = update_key(update);
                let i = index_of(slot_ids(old(self).slots@), key);
                if i >= 0 {
                    slots_view(final(self).slots@) == old_s.update(
                        i,
                        (key, updated_entry(Some(old_s[i].1), update)),
                    )
                } else {
                    slots_view(final(self).slots@) == old_s.push((key, updated_entry(None, update)))
                }
            }),
            distinct(slot_ids(old(self).slots@)) ==> distinct(slot_ids(final(self).slots@)),
    {
        let ghost ids0 = slot_ids(self.slots@);
        let ghost old_s = slots_view(self.slots@);
        let ghost u = update;
        let key = match &update {
            UserProfileUpdate::Full { new_profile, .. } => new_profile.user_id.clone(),
            UserProfileUpdate::RoomMemberOnly { user_id, .. } => user_id.clone(),
            UserProfileUpdate::UserProfileOnly(p) => p.user_id.clone(),
        };
        let found = self.index_of_user(&key);
        proof {
            lemma_index_of(slot_ids(self.slots@), key@);
        }
        let old_entry = match found {
            Some(i) => {
                let slot = self.slots.remove(i);
                Some(slot.entry)
            },
            None => None,
        };
        let ghost old_view = opt_entry_view(old_entry);
        let entry = match update {
            UserProfileUpdate::Full { new_profile, room_id } => {
                let rooms = match old_entry {
                    Some(UserProfileCacheEntry::Loaded { rooms, .. }) => {
                        let mut rooms = rooms;
                        add_room(&mut rooms, room_id);
                        rooms
                    },
                    _ => single_room(room_id),
                };
                UserProfileCacheEntry::Loaded { user_profile: new_profile, rooms }
            },
            UserProfileUpdate::RoomMemberOnly { room_id, user_id, avatar_url } => match old_entry {
                Some(UserProfileCacheEntry::Loaded { user_profile, rooms }) => {
                    let mut rooms = rooms;
                    add_room(&mut rooms, room_id);
                    UserProfileCacheEntry::Loaded { user_profile, rooms }
                },
                _ => UserProfileCacheEntry::Loaded {
                    user_profile: UserProfile { user_id, username: None, avatar_url },
                    rooms: single_room(room_id),
                },
            },
            UserProfileUpdate::UserProfileOnly(p) => {
                let rooms = match old_entry {
                    Some(UserProfileCacheEntry::Loaded { rooms, .. }) => rooms,
                    _ => Vec::new(),
                };
                assert(old_view is None || old_view.unwrap() is Requested ==> views(rooms@) =~= Seq::empty());
                UserProfileCacheEntry::Loaded { user_profile: p, rooms }
            },
        };
        assert(entry_view(entry) == updated_entry(old_view, u));
        let slot = CacheSlot { user_id: key, entry };
        match found {
            Some(i) => {
                self.slots.insert(i, slot);
                assert(slots_view(self.slots@) =~= old_s.update(i as int, (key@, updated_entry(old_view, u))));
                assert(slot_ids(self.slots@) =~= ids0);
            },
            None => {
                self.slots.push(slot);
                assert(slots_view(self.slots@) =~= old_s.push((key@, updated_entry(old_view, u))));
                assert(slot_ids(self.slots@) =~= ids0.push(key@));
                proof {
                    if distinct(ids0) {
                        lemma_distinct_push(ids0, key@);
                    }
                }
            },
        }
    }

    /// Marks a user's profile as requested unless the cache already has an entry for them;
    /// returns whether it had one (when it had none, the profile must be fetched).
    pub fn fetch_user_profile(&mut self, user_id: String) -> (r: bool)
        ensures
            r == (index_of(slot_ids(old(self).slots@), user_id@) >= 0),
            r ==> slots_view(final(self).slots@) == slots_view(old(self).slots@),
            !r ==> slots_view(final(self).slots@) == slots_view(old(self).slots@).push(
                (user_id@, EntryView::Requested),
            ),
            distinct(slot_ids(old(self).slots@)) ==> distinct(slot_ids(final(self).slots@)),
    {
        match self.index_of_user(&user_id) {
            Some(_) => true,
            None => {
                let ghost old_s = slots_view(self.slots@);
                let ghost id = user_id@;
                let ghost ids0 = slot_ids(self.slots@);
                self.slots.push(CacheSlot { user_id, entry: UserProfileCacheEntry::Requested });
                assert(slots_view(self.slots@) =~= old_s.push((id, EntryView::Requested)));
                assert(slot_ids(self.slots@) =~= ids0.push(id));
                proof {
                    if distinct(ids0) {
                        lemma_distinct_push(ids0, id);
                    }
                }
                false
            },
        }
    }
}

} // verus!
