//! The data model of the shared projection: accounts, login lifecycle,
//! chat and message windows, and the command vocabulary of the engine.
//!
//! Timestamps are carried as signed unix seconds; file and image locations
//! as plain path strings.

use vstd::prelude::*;

verus! {

/// State of one account's authentication.
///
/// Driven only by backend configuration/import progress events:
/// `Not` until a login starts, `Progress(p)` with `0 < p < 1000` while it
/// runs, then `Success` or `Error(reason)`. The two outcomes are terminal:
/// the record never transitions backward out of them; only removing the
/// account does away with it.
#[derive(Debug, PartialEq, Eq)]
pub enum Login {
    Success,
    Error(String),
    Progress(usize),
    Not,
}

impl Clone for Login {
    fn clone(&self) -> (r: Self)
        ensures
            r == *self,
    {
        match self {
            Login::Success => Login::Success,
            Login::Error(s) => Login::Error(s.clone()),
            Login::Progress(p) => Login::Progress(*p),
            Login::Not => Login::Not,
        }
    }
}

impl Default for Login {
    fn default() -> (r: Self)
        ensures
            r == Login::Not,
    {
        Login::Not
    }
}

/// `Success` and `Error` are terminal: only removing the account leaves
/// them.
pub open spec fn login_terminal(l: Login) -> bool {
    l is Success || l is Error
}

/// Where a login-lifecycle update lands: a terminal record stays as it is,
/// any other record moves to the target.
pub open spec fn spec_login_after(cur: Login, target: Login) -> Login {
    if login_terminal(cur) {
        cur
    } else {
        target
    }
}

/// The login lifecycle never transitions backward out of `Success` or
/// `Error`: whatever update arrives, a terminal record is unchanged.
pub proof fn lemma_login_terminal_is_stable(cur: Login, target: Login)
    ensures
        login_terminal(cur) ==> spec_login_after(cur, target) == cur,
{
}

/// Outcome carried by a configuration or import progress event.
#[derive(Debug, PartialEq, Eq, Clone, Copy)]
pub enum Progress {
    Success,
    Error,
    Step(usize),
}

/// A log line forwarded from the backend.
#[derive(Debug, PartialEq, Eq)]
pub enum Log {
    Info(String),
    Warning(String),
    Error(String),
}

impl Clone for Log {
    fn clone(&self) -> (r: Self)
        ensures
            r == *self,
    {
        match self {
            Log::Info(s) => Log::Info(s.clone()),
            Log::Warning(s) => Log::Warning(s.clone()),
            Log::Error(s) => Log::Error(s.clone()),
        }
    }
}

/// The closed set of application-level events the engine consumes,
/// produced by the event translator from raw backend events.
#[derive(Debug, PartialEq, Eq)]
pub enum Event {
    Configure(Progress),
    Imex(Progress),
    Connected,
    MessagesChanged { chat_id: u32 },
    MessageIncoming { chat_id: u32, title: String, body: String },
    Log(Log),
}

/// Content type of a message.
#[derive(Debug, Clone, Copy, PartialEq, Eq)]
pub enum Viewtype {
    Unknown,
    Text,
    Image,
    Gif,
    Sticker,
    Audio,
    Voice,
    Video,
    File,
    VideochatInvitation,
    Webxdc,
}

/// The numeric tag the backend wire format uses for a content type.
pub open spec fn spec_viewtype_to_i32(v: Viewtype) -> i32 {
    match v {
        Viewtype::Unknown => 0,
        Viewtype::Text => 10,
        Viewtype::Image => 20,
        Viewtype::Gif => 21,
        Viewtype::Sticker => 23,
        Viewtype::Audio => 40,
        Viewtype::Voice => 41,
        Viewtype::Video => 50,
        Viewtype::File => 60,
        Viewtype::VideochatInvitation => 70,
        Viewtype::Webxdc => 80,
    }
}

impl Viewtype {
    /// The numeric tag of this content type.
    pub fn to_i32(self) -> (r: i32)
        ensures
            r == spec_viewtype_to_i32(self),
    {
        match self {
            Viewtype::Unknown => 0,
            Viewtype::Text => 10,
            Viewtype::Image => 20,
            Viewtype::Gif => 21,
            Viewtype::Sticker => 23,
            Viewtype::Audio => 40,
            Viewtype::Voice => 41,
            Viewtype::Video => 50,
            Viewtype::File => 60,
            Viewtype::VideochatInvitation => 70,
            Viewtype::Webxdc => 80,
        }
    }

    /// The content type a numeric tag stands for, if any.
    pub fn from_i32(i: i32) -> (r: Option<Viewtype>)
        ensures
            r matches Some(v) ==> spec_viewtype_to_i32(v) == i,
            r is None ==> forall|v: Viewtype| spec_viewtype_to_i32(v) != i,
    {
        match i {
            0 => Some(Viewtype::Unknown),
            10 => Some(Viewtype::Text),
            20 => Some(Viewtype::Image),
            21 => Some(Viewtype::Gif),
            23 => Some(Viewtype::Sticker),
            40 => Some(Viewtype::Audio),
            41 => Some(Viewtype::Voice),
            50 => Some(Viewtype::Video),
            60 => Some(Viewtype::File),
            70 => Some(Viewtype::VideochatInvitation),
            80 => Some(Viewtype::Webxdc),
            _ => None,
        }
    }
}

/// Round trip: encoding a content type and decoding it gives it back.
pub proof fn lemma_viewtype_round_trip(v: Viewtype)
    ensures
        forall|w: Viewtype|
            spec_viewtype_to_i32(w) == spec_viewtype_to_i32(v) ==> w == v,
{
}

/// A chat as listed in the sidebar: display data plus capability flags,
/// and the chat's position inside the currently materialized window.
#[derive(Debug, PartialEq, Eq)]
pub struct ChatState {
    pub index: Option<usize>,
    pub id: u32,
    pub name: String,
    pub header: String,
    pub preview: String,
    pub timestamp: Option<i64>,
    pub state: String,
    pub profile_image: Option<String>,
    pub fresh_msg_cnt: usize,
    pub can_send: bool,
    pub is_contact_request: bool,
    pub is_self_talk: bool,
    pub is_device_talk: bool,
    pub chat_type: String,
    pub color: u32,
    pub member_count: usize,
    pub is_pinned: bool,
    pub is_archived: bool,
}

impl Clone for ChatState {
    fn clone(&self) -> (r: Self)
        ensures
            r == *self,
    {
        ChatState {
            index: self.index,
            id: self.id,
            name: self.name.clone(),
            header: self.header.clone(),
            preview: self.preview.clone(),
            timestamp: self.timestamp,
            state: self.state.clone(),
            profile_image: clone_opt_string(&self.profile_image),
            fresh_msg_cnt: self.fresh_msg_cnt,
            can_send: self.can_send,
            is_contact_request: self.is_contact_request,
            is_self_talk: self.is_self_talk,
            is_device_talk: self.is_device_talk,
            chat_type: self.chat_type.clone(),
            color: self.color,
            member_count: self.member_count,
            is_pinned: self.is_pinned,
            is_archived: self.is_archived,
        }
    }
}

/// Clones an optional string; the copy equals the original.
pub fn clone_opt_string(o: &Option<String>) -> (r: Option<String>)
    ensures
        r == *o,
{
    match o {
        Some(s) => Some(s.clone()),
        None => None,
    }
}

/// Clones an optional chat summary; the copy equals the original.
pub fn clone_opt_chat(o: &Option<ChatState>) -> (r: Option<ChatState>)
    ensures
        r == *o,
{
    match o {
        Some(c) => Some(c.clone()),
        None => None,
    }
}

/// Clones a string vector; the copy holds the same strings.
pub fn clone_strings(v: &Vec<String>) -> (r: Vec<String>)
    ensures
        r@ == v@,
{
    let mut out: Vec<String> = Vec::new();
    let n = v.len();
    let mut i: usize = 0;
    while i < n
        invariant
            n == v@.len(),
            i <= n,
            out@ =~= v@.subrange(0, i as int),
        decreases n - i,
    {
        out.push(v[i].clone());
        i += 1;
    }
    proof {
        assert(out@ =~= v@);
    }
    out
}

/// One entry of the lightweight index over a chat's full message range:
/// a message id, or a day-separator timestamp.
#[derive(Debug, PartialEq, Eq, Clone, Copy)]
pub enum ChatItem {
    Message(u32),
    DayMarker(i64),
}

/// A materialized message: an inner message, or a day-separator marker.
#[derive(Debug, PartialEq, Eq)]
pub enum ChatMessage {
    Message(InnerChatMessage),
    DayMarker(i64),
}

/// A message as shown in the message list, with its sender's display data.
#[derive(Debug, PartialEq, Eq)]
pub struct InnerChatMessage {
    pub id: u32,
    pub from_id: u32,
    pub from_first_name: String,
    pub from_profile_image: Option<String>,
    pub from_color: u32,
    pub viewtype: Viewtype,
    pub state: String,
    pub text: Option<String>,
    pub quote: Option<Box<InnerChatMessage>>,
    pub timestamp: Option<i64>,
    pub is_info: bool,
    pub file: Option<String>,
    pub file_height: i32,
    pub file_width: i32,
    pub is_first: bool,
}

impl Clone for InnerChatMessage {
    fn clone(&self) -> (r: Self)
        ensures
            r == *self,
        decreases *self,
    {
        InnerChatMessage {
            id: self.id,
            from_id: self.from_id,
            from_first_name: self.from_first_name.clone(),
            from_profile_image: clone_opt_string(&self.from_profile_image),
            from_color: self.from_color,
            viewtype: self.viewtype,
            state: self.state.clone(),
            text: clone_opt_string(&self.text),
            quote: match &self.quote {
                Some(q) => Some(Box::new((**q).clone())),
                None => None,
            },
            timestamp: self.timestamp,
            is_info: self.is_info,
            file: clone_opt_string(&self.file),
            file_height: self.file_height,
            file_width: self.file_width,
            is_first: self.is_first,
        }
    }
}

impl Clone for ChatMessage {
    fn clone(&self) -> (r: Self)
        ensures
            r == *self,
    {
        match self {
            ChatMessage::Message(m) => ChatMessage::Message(m.clone()),
            ChatMessage::DayMarker(t) => ChatMessage::DayMarker(*t),
        }
    }
}

/// The index entry a materialized message is listed under.
pub open spec fn spec_item_of(m: ChatMessage) -> ChatItem {
    match m {
        ChatMessage::Message(im) => ChatItem::Message(im.id),
        ChatMessage::DayMarker(t) => ChatItem::DayMarker(t),
    }
}

/// The index entry of one materialized message.
pub fn item_of(m: &ChatMessage) -> (r: ChatItem)
    ensures
        r == spec_item_of(*m),
{
    match m {
        ChatMessage::Message(im) => ChatItem::Message(im.id),
        ChatMessage::DayMarker(t) => ChatItem::DayMarker(*t),
    }
}

/// Windowed view over one chat's messages: the owning chat id, the
/// materialized half-open range, the item index for the full logical
/// range, and the materialized messages of the range.
#[derive(Debug, PartialEq)]
pub struct MessageList {
    pub chat_id: u32,
    pub range: (usize, usize),
    pub items: Vec<ChatItem>,
    pub messages: Vec<ChatMessage>,
}

impl MessageList {
    /// Resets to the zeroed state used while no chat is selected.
    pub fn clear(&mut self)
        ensures
            final(self).chat_id == 0,
            final(self).range == (0usize, 0usize),
            final(self).items@ =~= Seq::<ChatItem>::empty(),
            final(self).messages@ =~= Seq::<ChatMessage>::empty(),
    {
        self.chat_id = 0;
        self.range = (0, 0);
        self.items.clear();
        self.messages.clear();
    }
}

impl Default for MessageList {
    fn default() -> (r: Self)
        ensures
            r.chat_id == 0,
            r.range == (0usize, 0usize),
            r.items@ =~= Seq::<ChatItem>::empty(),
            r.messages@ =~= Seq::<ChatMessage>::empty(),
    {
        MessageList { chat_id: 0, range: (0, 0), items: Vec::new(), messages: Vec::new() }
    }
}

/// Windowed view over the chat collection: the materialized half-open
/// range, the total logical length, and the chats of the range.
#[derive(Debug, PartialEq)]
pub struct ChatList {
    pub range: (usize, usize),
    pub len: usize,
    pub chats: Vec<ChatState>,
}

impl Default for ChatList {
    fn default() -> (r: Self)
        ensures
            r.range == (0usize, 0usize),
            r.len == 0,
            r.chats@ =~= Seq::<ChatState>::empty(),
    {
        ChatList { range: (0, 0), len: 0, chats: Vec::new() }
    }
}

/// Read-only per-account summary exposed to the UI.
#[derive(Debug, PartialEq, Eq)]
pub struct SharedAccountState {
    pub logged_in: Login,
    pub email: String,
    pub profile_image: Option<String>,
    pub display_name: Option<String>,
}

impl Clone for SharedAccountState {
    fn clone(&self) -> (r: Self)
        ensures
            r == *self,
    {
        SharedAccountState {
            logged_in: self.logged_in.clone(),
            email: self.email.clone(),
            profile_image: clone_opt_string(&self.profile_image),
            display_name: clone_opt_string(&self.display_name),
        }
    }
}

/// The root projection: per-account summaries, accumulated non-fatal
/// errors, and the current selection with a denormalized copy of the
/// selected chat's summary.
#[derive(Debug, PartialEq)]
pub struct SharedState {
    pub accounts: crate::idmap::IdMap<SharedAccountState>,
    pub errors: Vec<String>,
    pub selected_account: Option<u32>,
    pub selected_chat_id: Option<u32>,
    pub selected_chat: Option<ChatState>,
}

impl Default for SharedState {
    fn default() -> (r: Self)
        ensures
            r.accounts.spec_len() == 0,
            r.accounts.wf(),
            r.errors@ =~= Seq::<String>::empty(),
            r.selected_account is None,
            r.selected_chat_id is None,
            r.selected_chat is None,
    {
        SharedState {
            accounts: crate::idmap::IdMap::new(),
            errors: Vec::new(),
            selected_account: None,
            selected_chat_id: None,
            selected_chat: None,
        }
    }
}

/// A full remote-state snapshot as carried by a response.
#[derive(Debug)]
pub struct State {
    pub shared: SharedState,
}

/// A response handed back from the account layer to its caller.
#[derive(Debug)]
pub enum Response {
    RemoteUpdate {
        state: State,
    },
    MessageList {
        chat_id: u32,
        range: (usize, usize),
        items: Vec<ChatItem>,
        messages: Vec<ChatMessage>,
    },
    ChatList {
        range: (usize, usize),
        len: usize,
        chats: Vec<ChatState>,
    },
    Account {
        account: u32,
        chat: Option<ChatState>,
        chat_id: Option<u32>,
    },
    Event {
        account: u32,
        event: Event,
    },
}

/// What a successful account selection reports back: the account and its
/// remembered chat selection.
#[derive(Debug, PartialEq)]
pub struct AccountInfo {
    pub account: u32,
    pub chat_id: Option<u32>,
    pub chat: Option<ChatState>,
}

/// The full command vocabulary a UI can send to the account layer.
#[derive(Debug)]
pub enum Request {
    Login { email: String, password: String },
    SelectChat { account: u32, chat_id: u32 },
    LoadChatList { start_index: usize, stop_index: usize },
    LoadMessageList { start_index: usize, stop_index: usize },
    SelectAccount { account: u32 },
    SendTextMessage { text: String },
    SendFileMessage { typ: Viewtype, path: String, text: Option<String>, mime: Option<String> },
    MaybeNetwork,
    AcceptContactRequest { account: u32, chat_id: u32 },
    BlockContact { account: u32, chat_id: u32 },
    GetAccountDetail { id: u32 },
    PinChat { account: u32, chat_id: u32 },
    UnpinChat { account: u32, chat_id: u32 },
    ArchiveChat { account: u32, chat_id: u32 },
    UnarchiveChat { account: u32, chat_id: u32 },
}

} // verus!
