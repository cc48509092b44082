use vstd::prelude::*;
use crate::models::UnreadMessageCount;

verus! {

/// A room's lifecycle state as the server reports it.
#[derive(Clone, Copy, Debug, PartialEq, Eq, Structural)]
pub enum RoomState {
    Knocked,
    Banned,
    Left,
    Invited,
    Joined,
}

/// The name under which a room is shown, and where it comes from.
#[derive(Clone, Debug)]
pub enum RoomDisplayName {
    Named(String),
    Aliased(String),
    Calculated(String),
    EmptyWas(String),
    Empty,
}

/// The text of a room's display name.
pub open spec fn name_text(n: RoomDisplayName) -> Seq<char> {
    match n {
        RoomDisplayName::Named(s) => s@,
        RoomDisplayName::Aliased(s) => s@,
        RoomDisplayName::Calculated(s) => s@,
        RoomDisplayName::EmptyWas(s) => s@,
        RoomDisplayName::Empty => Seq::empty(),
    }
}

impl RoomDisplayName {
    pub fn text(&self) -> (r: &str)
        ensures
            r@ == name_text(*self),
    {
        match self {
            RoomDisplayName::Named(s) => s.as_str(),
            RoomDisplayName::Aliased(s) => s.as_str(),
            RoomDisplayName::Calculated(s) => s.as_str(),
            RoomDisplayName::EmptyWas(s) => s.as_str(),
            RoomDisplayName::Empty => {
                proof {
                    reveal_strlit("");
                }
                ""
            },
        }
    }
}

/// One of the main members of a room.
#[derive(Clone, Debug)]
pub struct RoomHero {
    pub user_id: String,
    pub display_name: Option<String>,
    pub avatar_url: Option<String>,
}

/// The latest message of a room: its timestamp in milliseconds and its preview text.
#[derive(Clone, Debug)]
pub struct LatestEvent {
    pub timestamp: u64,
    pub text: String,
}

/// Who invited the user to a room.
#[derive(Clone, Debug)]
pub struct InviterInfo {
    pub user_id: String,
    pub display_name: Option<String>,
    pub avatar: Option<String>,
}

/// Where the user's decision on an invite stands.
#[derive(Clone, Copy, Debug, PartialEq, Eq, Structural)]
pub enum InviteState {
    WaitingOnUserInput,
    WaitingForJoinResult,
    WaitingForLeaveResult,
}

/// UI-related info about a room that the user is invited to.
#[derive(Clone, Debug)]
pub struct InvitedRoomInfo {
    pub room_id: String,
    pub room_name: RoomDisplayName,
    pub inviter_info: Option<InviterInfo>,
    pub room_avatar: Option<String>,
    pub canonical_alias: Option<String>,
    pub alt_aliases: Vec<String>,
    pub latest: Option<LatestEvent>,
    pub invite_state: InviteState,
    pub is_direct: bool,
}

/// UI-related info about a joined room: what its preview in the rooms list shows
/// and what the search filter reads.
#[derive(Clone, Debug)]
pub struct JoinedRoomInfo {
    pub room_id: String,
    pub room_name: RoomDisplayName,
    pub num_unread_messages: u64,
    pub num_unread_mentions: u64,
    pub canonical_alias: Option<String>,
    pub alt_aliases: Vec<String>,
    /// The names of the room's tags (favourite, low priority, ...).
    pub tags: Vec<String>,
    pub topic: Option<String>,
    pub latest: Option<LatestEvent>,
    pub avatar: Option<String>,
    /// Whether the room was paginated at least once.
    pub has_been_paginated: bool,
    /// Whether the room is currently selected in the UI.
    pub is_selected: bool,
    pub is_direct: bool,
    /// The other user of a direct room with a single peer.
    pub direct_user_id: Option<String>,
    /// Whether the room was shut down and replaced by a successor room.
    pub is_tombstoned: bool,
    pub heroes: Vec<RoomHero>,
}

/// The status label at the bottom of the rooms list.
#[derive(Clone, Debug)]
pub enum RoomsCollectionStatus {
    NotLoaded(String),
    Loading(String),
    Loaded(String),
    Error(String),
}

/// The kind of a status and its message.
#[derive(PartialEq, Eq, Structural, Clone, Copy, Debug)]
pub enum StatusKind {
    NotLoaded,
    Loading,
    Loaded,
    Error,
}

pub open spec fn status_kind(s: RoomsCollectionStatus) -> StatusKind {
    match s {
        RoomsCollectionStatus::NotLoaded(_) => StatusKind::NotLoaded,
        RoomsCollectionStatus::Loading(_) => StatusKind::Loading,
        RoomsCollectionStatus::Loaded(_) => StatusKind::Loaded,
        RoomsCollectionStatus::Error(_) => StatusKind::Error,
    }
}

pub open spec fn status_message(s: RoomsCollectionStatus) -> Seq<char> {
    match s {
        RoomsCollectionStatus::NotLoaded(m) => m@,
        RoomsCollectionStatus::Loading(m) => m@,
        RoomsCollectionStatus::Loaded(m) => m@,
        RoomsCollectionStatus::Error(m) => m@,
    }
}

/// The updates that the rooms list applies, in the order they were enqueued.
#[derive(Debug)]
pub enum RoomsListUpdate {
    /// No rooms have been loaded yet.
    NotLoaded,
    /// Some rooms were loaded; the server may have said how many there will be.
    LoadedRooms { max_rooms: Option<u32> },
    AddInvitedRoom(InvitedRoomInfo),
    AddJoinedRoom(JoinedRoomInfo),
    ClearRooms,
    UpdateLatestEvent { room_id: String, timestamp: u64, latest_message_text: String },
    UpdateNumUnreadMessages {
        room_id: String,
        unread_messages: UnreadMessageCount,
        unread_mentions: u64,
    },
    UpdateRoomName { room_id: String, new_room_name: RoomDisplayName },
    UpdateTopic { room_id: String, new_topic: String },
    UpdateRoomAvatar { room_id: String, avatar: String },
    UpdateIsDirect { room_id: String, is_direct: bool },
    /// The room left the list; `new_state` is the state that made it leave.
    RemoveRoom { room_id: String, new_state: RoomState },
    Tags { room_id: String, new_tags: Vec<String> },
    Status { status: RoomsCollectionStatus },
    TombstonedRoom { room_id: String },
    ApplyFilter { keywords: String },
}

} // verus!
