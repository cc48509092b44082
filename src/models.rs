use vstd::prelude::*;

verus! {

/// The kinds of events that the UI can send to this library.
#[derive(Debug, PartialEq, Eq, Clone, Copy, Hash, Structural)]
pub enum ListenEvent {
    RoomCreated,
    VerificationResult,
    MatrixUpdateCurrentActiveRoom,
    MatrixLogin,
    CancelVerification,
}

/// The UI's answer to a device-verification prompt.
#[derive(Debug, Clone, Copy, PartialEq, Eq, Structural)]
pub struct MatrixVerificationResponse {
    pub confirmed: bool,
}

/// The UI's acknowledgement that it created the store of a room.
#[derive(Debug, Clone)]
pub struct MatrixRoomStoreCreatedRequest {
    pub id: String,
    pub message: String,
}

/// The UI's request to focus a room.
#[derive(Debug, Clone)]
pub struct MatrixUpdateCurrentActiveRoom {
    pub room_id: String,
    pub room_name: String,
}

/// The user's account credentials to create a new session.
#[derive(Debug, Clone)]
pub struct MatrixLoginPayload {
    pub username: String,
    pub password: String,
    pub homeserver_url: String,
    pub client_name: String,
}

/// The emojis to show while verifying a device.
#[derive(Debug, Clone)]
pub struct MatrixVerificationEmojis {
    pub emojis: String,
}

impl MatrixVerificationEmojis {
    pub fn new(emojis: String) -> (r: Self)
        ensures
            r.emojis == emojis,
    {
        Self { emojis }
    }
}

/// A request to the UI to create the store of a room.
#[derive(Debug, Clone)]
pub struct MatrixRoomStoreCreateRequest {
    pub id: String,
}

impl MatrixRoomStoreCreateRequest {
    pub fn new(id: String) -> (r: Self)
        ensures
            r.id == id,
    {
        Self { id }
    }
}

/// The look of a toast notification.
#[derive(Debug, Clone, Copy, PartialEq, Eq, Structural)]
pub enum ToastNotificationVariant {
    Default,
    Description,
    Success,
    Info,
    Warning,
    Error,
}

/// A transient notification shown to the user.
#[derive(Debug, Clone)]
pub struct ToastNotificationRequest {
    pub message: String,
    pub description: Option<String>,
    pub variant: ToastNotificationVariant,
}

impl ToastNotificationRequest {
    /// A notification with a description always has the `Description` look.
    pub fn new(
        message: String,
        description: Option<String>,
        variant: ToastNotificationVariant,
    ) -> (r: Self)
        ensures
            r.message == message,
            r.description == description,
            r.variant == (if description is Some {
                ToastNotificationVariant::Description
            } else {
                variant
            }),
    {
        if description.is_some() {
            Self { message, description, variant: ToastNotificationVariant::Description }
        } else {
            Self { message, description: None, variant }
        }
    }
}

/// A notification for the operating system's notification center.
#[derive(Debug, Clone)]
pub struct OsNotificationRequest {
    pub summary: String,
    pub body: Option<String>,
}

impl OsNotificationRequest {
    pub fn new(summary: String, body: Option<String>) -> (r: Self)
        ensures
            r.summary == summary,
            r.body == body,
    {
        Self { summary, body }
    }
}

/// The steps of a media download streamed to the UI.
#[derive(Debug, Clone)]
pub enum MediaStreamEvent {
    Started,
    Chunk { data: Vec<u8>, chunk_size: usize, bytes_received: usize },
    Finished { total_bytes: usize },
    Error { message: String },
}

/// The steps of a device verification shown to the UI.
#[derive(Debug, Clone)]
pub enum VerifyDeviceEvent {
    Requested,
    Done,
    Cancelled { reason: String },
}

/// The platform a device most likely runs on.
#[derive(Debug, Clone, Copy, PartialEq, Eq, Structural)]
pub enum DeviceGuessedType {
    Android,
    Ios,
    Web,
    Desktop,
    Unknown,
}

/// The login mechanism a homeserver offers.
#[derive(Debug, Clone, Copy, PartialEq, Eq, Structural)]
pub enum FrontendAuthTypeResponse {
    Matrix,
    Oauth,
    WrongUrl,
}

/// The user's account credentials to create a new session.
#[derive(Debug, Clone)]
pub struct MatrixClientConfig {
    pub username: String,
    pub password: String,
    pub homeserver_url: String,
    pub client_name: String,
}

impl MatrixClientConfig {
    pub fn new(
        username: String,
        password: String,
        homeserver_url: String,
        client_name: String,
    ) -> (r: Self)
        ensures
            r.username == username,
            r.password == password,
            r.homeserver_url == homeserver_url,
            r.client_name == client_name,
    {
        MatrixClientConfig { username, password, homeserver_url, client_name }
    }

    pub fn username(&self) -> (r: &str)
        ensures
            r@ == self.username@,
    {
        self.username.as_str()
    }
}

/// The ways to log in.
pub enum LoginRequest {
    LoginByPassword(MatrixClientConfig),
}

/// What is needed to reopen a client's local store.
#[derive(Debug, Clone)]
pub struct ClientSession {
    pub homeserver: String,
    pub db_path: String,
    pub passphrase: String,
}

impl ClientSession {
    pub fn new(homeserver: String, db_path: String, passphrase: String) -> (r: Self)
        ensures
            r.homeserver == homeserver,
            r.db_path == db_path,
            r.passphrase == passphrase,
    {
        ClientSession { homeserver, db_path, passphrase }
    }
}

/// The login state shown by the UI.
#[derive(Debug, Clone, Copy, PartialEq, Eq, Structural)]
pub enum LoginState {
    Initiating,
    Restored,
    AwaitingForLogin,
    LoggedIn,
}

pub open spec fn login_state_name(s: LoginState) -> Seq<char> {
    match s {
        LoginState::Initiating => "initiating"@,
        LoginState::Restored => "restored"@,
        LoginState::AwaitingForLogin => "awaitingForLogin"@,
        LoginState::LoggedIn => "loggedIn"@,
    }
}

impl LoginState {
    pub fn to_camel_case(&self) -> (r: String)
        ensures
            r@ == login_state_name(*self),
    {
        match self {
            LoginState::Initiating => "initiating".to_owned(),
            LoginState::Restored => "restored".to_owned(),
            LoginState::AwaitingForLogin => "awaitingForLogin".to_owned(),
            LoginState::LoggedIn => "loggedIn".to_owned(),
        }
    }
}

/// The number of unread messages in a room.
#[derive(Clone, Copy, Debug, PartialEq, Eq, Structural)]
pub enum UnreadMessageCount {
    /// There are unread messages, but we do not know how many.
    _Unknown,
    /// There are unread messages, and we know exactly how many.
    Known(u64),
}

/// A timeline item that could not be rendered.
#[derive(Debug, Clone)]
pub struct FrontendTimelineErrorItem {
    pub error: String,
}

/// Where a reaction stands between local echo and server confirmation.
#[derive(Clone, Copy, Debug, PartialEq, Eq, Structural)]
pub enum SerializableReactionStatus {
    LocalToLocal,
    LocalToRemote,
    RemoteToRemote,
}

/// A timeline item that is not backed by an event.
#[derive(Debug, Clone, Copy, PartialEq, Eq, Structural)]
pub enum FrontendVirtualTimelineItem {
    /// A divider between messages of two days or months.
    DateDivider,
    /// The user's own read marker.
    ReadMarker,
    /// The start of the timeline: every event of it has been seen.
    TimelineStart,
}

/// The one message of the UI-refresh signal.
#[derive(Debug, Clone, Copy, PartialEq, Eq, Structural)]
pub enum UIUpdateMessage {
    RefreshUI,
}

} // verus!
