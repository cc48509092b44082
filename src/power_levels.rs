use vstd::prelude::*;

verus! {

/// A user's power level in a room: unbounded (a room creator) or an integer.
#[derive(Clone, Copy, Debug, PartialEq, Eq, Structural)]
pub enum UserPower {
    Infinite,
    Int(i64),
}

/// Whether a user power reaches the given threshold.
pub open spec fn reaches(power: UserPower, threshold: i64) -> bool {
    match power {
        UserPower::Infinite => true,
        UserPower::Int(p) => p >= threshold,
    }
}

/// The thresholds of a room's power-level event that this library reads.
#[derive(Clone, Copy, Debug, PartialEq, Eq, Structural)]
pub struct RoomPowerThresholds {
    pub ban: i64,
    pub invite: i64,
    pub kick: i64,
    pub redact: i64,
    pub notify_room: i64,
    pub location: i64,
    pub message: i64,
    pub reaction: i64,
    pub room_message: i64,
    pub room_redaction: i64,
    pub sticker: i64,
    pub room_avatar: i64,
    pub room_name: i64,
    pub room_pinned_events: i64,
    pub room_topic: i64,
}

/// The powers that a user has in a given room, one flag per capability.
#[derive(Clone, Copy, Debug, PartialEq, Eq, Structural)]
pub struct UserPowerLevels {
    pub ban: bool,
    pub invite: bool,
    pub kick: bool,
    pub redact: bool,
    pub notify_room: bool,
    pub location: bool,
    pub message: bool,
    pub reaction: bool,
    pub room_message: bool,
    pub room_redaction: bool,
    pub sticker: bool,
    pub room_avatar: bool,
    pub room_name: bool,
    pub room_pinned_events: bool,
    pub room_topic: bool,
}

pub fn reaches_threshold(power: UserPower, threshold: i64) -> (r: bool)
    ensures
        r == reaches(power, threshold),
{
    match power {
        UserPower::Infinite => true,
        UserPower::Int(p) => p >= threshold,
    }
}

impl UserPowerLevels {
    pub open spec fn is_all(self) -> bool {
        &&& self.ban && self.invite && self.kick && self.redact && self.notify_room
        &&& self.location && self.message && self.reaction && self.room_message
        &&& self.room_redaction && self.sticker && self.room_avatar && self.room_name
        &&& self.room_pinned_events && self.room_topic
    }

    pub open spec fn is_empty(self) -> bool {
        &&& !self.ban && !self.invite && !self.kick && !self.redact && !self.notify_room
        &&& !self.location && !self.message && !self.reaction && !self.room_message
        &&& !self.room_redaction && !self.sticker && !self.room_avatar && !self.room_name
        &&& !self.room_pinned_events && !self.room_topic
    }

    /// Every power granted.
    pub fn all() -> (r: Self)
        ensures
            r.is_all(),
    {
        UserPowerLevels {
            ban: true,
            invite: true,
            kick: true,
            redact: true,
            notify_room: true,
            location: true,
            message: true,
            reaction: true,
            room_message: true,
            room_redaction: true,
            sticker: true,
            room_avatar: true,
            room_name: true,
            room_pinned_events: true,
            room_topic: true,
        }
    }

    /// No power granted.
    pub fn empty() -> (r: Self)
        ensures
            r.is_empty(),
    {
        UserPowerLevels {
            ban: false,
            invite: false,
            kick: false,
            redact: false,
            notify_room: false,
            location: false,
            message: false,
            reaction: false,
            room_message: false,
            room_redaction: false,
            sticker: false,
            room_avatar: false,
            room_name: false,
            room_pinned_events: false,
            room_topic: false,
        }
    }

    /// The powers of a user with power `user_power` in a room with thresholds `t`:
    /// a power is granted exactly when the user's power reaches its threshold.
    pub open spec fn spec_from(t: RoomPowerThresholds, user_power: UserPower) -> Self {
        UserPowerLevels {
            ban: reaches(user_power, t.ban),
            invite: reaches(user_power, t.invite),
            kick: reaches(user_power, t.kick),
            redact: reaches(user_power, t.redact),
            notify_room: reaches(user_power, t.notify_room),
            location: reaches(user_power, t.location),
            message: reaches(user_power, t.message),
            reaction: reaches(user_power, t.reaction),
            room_message: reaches(user_power, t.room_message),
            room_redaction: reaches(user_power, t.room_redaction),
            sticker: reaches(user_power, t.sticker),
            room_avatar: reaches(user_power, t.room_avatar),
            room_name: reaches(user_power, t.room_name),
            room_pinned_events: reaches(user_power, t.room_pinned_events),
            room_topic: reaches(user_power, t.room_topic),
        }
    }

    pub fn from(power_levels: &RoomPowerThresholds, user_power: UserPower) -> (r: Self)
        ensures
            r == Self::spec_from(*power_levels, user_power),
    {
        let t = power_levels;
        let mut retval = UserPowerLevels::empty();
        retval.ban = reaches_threshold(user_power, t.ban);
        retval.invite = reaches_threshold(user_power, t.invite);
        retval.kick = reaches_threshold(user_power, t.kick);
        retval.redact = reaches_threshold(user_power, t.redact);
        retval.notify_room = reaches_threshold(user_power, t.notify_room);
        retval.location = reaches_threshold(user_power, t.location);
        retval.message = reaches_threshold(user_power, t.message);
        retval.reaction = reaches_threshold(user_power, t.reaction);
        retval.room_message = reaches_threshold(user_power, t.room_message);
        retval.room_redaction = reaches_threshold(user_power, t.room_redaction);
        retval.sticker = reaches_threshold(user_power, t.sticker);
        retval.room_avatar = reaches_threshold(user_power, t.room_avatar);
        retval.room_name = reaches_threshold(user_power, t.room_name);
        retval.room_pinned_events = reaches_threshold(user_power, t.room_pinned_events);
        retval.room_topic = reaches_threshold(user_power, t.room_topic);
        retval
    }

    pub fn _can_ban(self) -> (r: bool)
        ensures
            r == self.ban,
    {
        self.ban
    }

    pub fn _can_unban(self) -> (r: bool)
        ensures
            r == (self.ban && self.kick),
    {
        self._can_ban() && self._can_kick()
    }

    pub fn _can_invite(self) -> (r: bool)
        ensures
            r == self.invite,
    {
        self.invite
    }

    pub fn _can_kick(self) -> (r: bool)
        ensures
            r == self.kick,
    {
        self.kick
    }

    pub fn _can_redact(self) -> (r: bool)
        ensures
            r == self.redact,
    {
        self.redact
    }

    pub fn _can_notify_room(self) -> (r: bool)
        ensures
            r == self.notify_room,
    {
        self.notify_room
    }

    pub fn _can_redact_own(self) -> (r: bool)
        ensures
            r == self.room_redaction,
    {
        self.room_redaction
    }

    pub fn _can_redact_others(self) -> (r: bool)
        ensures
            r == (self.room_redaction && self.redact),
    {
        self._can_redact_own() && self.redact
    }

    pub fn _can_send_location(self) -> (r: bool)
        ensures
            r == self.location,
    {
        self.location
    }

    pub fn _can_send_message(self) -> (r: bool)
        ensures
            r == (self.room_message || self.message),
    {
        self.room_message || self.message
    }

    pub fn _can_send_reaction(self) -> (r: bool)
        ensures
            r == self.reaction,
    {
        self.reaction
    }

    pub fn _can_send_sticker(self) -> (r: bool)
        ensures
            r == self.sticker,
    {
        self.sticker
    }

    /// Pinning and unpinning share one power.
    pub fn _can_pin(self) -> (r: bool)
        ensures
            r == self.room_pinned_events,
    {
        self.room_pinned_events
    }
}

/// The actions that the user can perform on a message, as shown in its context menu.
#[derive(Clone, Copy, Debug, PartialEq, Eq, Structural)]
pub struct MessageAbilities {
    pub can_react: bool,
    pub can_reply_to: bool,
    pub can_edit: bool,
    pub can_pin: bool,
    pub can_unpin: bool,
    pub can_delete: bool,
}

/// The per-item facts of a timeline event that its abilities depend on.
#[derive(Clone, Copy, Debug, PartialEq, Eq, Structural)]
pub struct EventItemFlags {
    pub is_editable: bool,
    pub is_own: bool,
    pub can_be_replied_to: bool,
}

impl MessageAbilities {
    pub fn from_user_power_and_event(
        user_power_levels: &UserPowerLevels,
        event: &EventItemFlags,
    ) -> (r: Self)
        ensures
            r.can_edit == event.is_editable,
            // only one's own messages can be deleted
            r.can_delete == (event.is_own && user_power_levels.room_redaction),
            r.can_reply_to == event.can_be_replied_to,
            r.can_pin == user_power_levels.room_pinned_events,
            !r.can_unpin,
            r.can_react == user_power_levels.reaction,
    {
        let can_delete = if event.is_own {
            user_power_levels._can_redact_own()
        } else {
            false
        };
        MessageAbilities {
            can_react: user_power_levels._can_send_reaction(),
            can_reply_to: event.can_be_replied_to,
            can_edit: event.is_editable,
            can_pin: user_power_levels._can_pin(),
            can_unpin: false,
            can_delete,
        }
    }
}

} // verus!
