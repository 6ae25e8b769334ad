//! Materializing windows: a contiguous sub-range of the chat collection or
//! of one chat's messages, rebuilt wholesale from the backend's data on
//! every refresh rather than patched incrementally.

use vstd::prelude::*;

use crate::backend::ChatData;
use crate::types::{
    ChatItem, ChatList, ChatMessage, ChatState, InnerChatMessage, MessageList, spec_item_of,
};

verus! {

/// The materialized half-open range: the request clamped to the collection,
/// or the whole collection when no range is requested.
pub open spec fn spec_window_bounds(range: Option<(usize, usize)>, len: usize) -> (usize, usize) {
    match range {
        None => (0usize, len),
        Some((s, e)) => {
            let s2 = if s > len {
                len
            } else {
                s
            };
            let e2 = if e > len {
                len
            } else {
                e
            };
            if e2 < s2 {
                (s2, s2)
            } else {
                (s2, e2)
            }
        },
    }
}

/// Clamps a requested range to a collection of the given length.
pub fn window_bounds(range: Option<(usize, usize)>, len: usize) -> (r: (usize, usize))
    ensures
        r == spec_window_bounds(range, len),
        r.0 <= r.1 <= len,
{
    match range {
        None => (0, len),
        Some((s, e)) => {
            let s2 = if s > len {
                len
            } else {
                s
            };
            let e2 = if e > len {
                len
            } else {
                e
            };
            if e2 < s2 {
                (s2, s2)
            } else {
                (s2, e2)
            }
        },
    }
}

/// A chat summary stamped with its position in the collection.
pub open spec fn spec_with_index(c: ChatState, idx: usize) -> ChatState {
    ChatState { index: Some(idx), ..c }
}

/// The chat summaries a window over the collection materializes.
pub open spec fn spec_window_chats(chats: Seq<ChatData>, range: Option<(usize, usize)>) -> Seq<
    ChatState,
> {
    let b = spec_window_bounds(range, chats.len() as usize);
    Seq::new((b.1 - b.0) as nat, |i: int| spec_with_index(chats[b.0 + i].summary, (b.0 + i) as usize))
}

/// Materializes a window over the chat collection: the clamped range, the
/// total logical length, and the summaries of the range, each stamped with
/// its position.
pub fn chat_window(chats: &Vec<ChatData>, range: Option<(usize, usize)>) -> (r: ChatList)
    ensures
        r.len == chats@.len(),
        r.range == spec_window_bounds(range, chats@.len() as usize),
        r.range.0 <= r.range.1 <= chats@.len(),
        r.chats@ == spec_window_chats(chats@, range),
        r.chats@.len() == r.range.1 - r.range.0,
{
    let len = chats.len();
    let b = window_bounds(range, len);
    let (start, end) = b;
    let mut out: Vec<ChatState> = Vec::new();
    let mut j: usize = start;
    while j < end
        invariant
            start <= j <= end <= len,
            len == chats@.len(),
            (start, end) == spec_window_bounds(range, chats@.len() as usize),
            out@.len() == j - start,
            forall|i: int|
                0 <= i < out@.len() ==> out@[i] == spec_with_index(
                    chats@[start + i].summary,
                    (start + i) as usize,
                ),
        decreases end - j,
    {
        let mut c = chats[j].summary.clone();
        c.index = Some(j);
        out.push(c);
        j += 1;
    }
    proof {
        assert(out@ =~= spec_window_chats(chats@, range));
    }
    ChatList { range: (start, end), len, chats: out }
}

/// The lightweight index over the full message range.
pub open spec fn spec_item_index(s: Seq<ChatMessage>) -> Seq<ChatItem> {
    Seq::new(s.len(), |i: int| spec_item_of(s[i]))
}

/// A message carries the first-in-run flag at this position: it opens the
/// list, follows a day marker, or follows a message from another sender.
pub open spec fn spec_is_first_at(s: Seq<ChatMessage>, i: int) -> bool {
    i == 0 || match s[i - 1] {
        ChatMessage::DayMarker(_) => true,
        ChatMessage::Message(p) => match s[i] {
            ChatMessage::Message(m) => p.from_id != m.from_id,
            ChatMessage::DayMarker(_) => false,
        },
    }
}

/// The message at this position as the window materializes it: day markers
/// unchanged, messages with their first-in-run flag computed.
pub open spec fn spec_marked_at(s: Seq<ChatMessage>, i: int) -> ChatMessage {
    match s[i] {
        ChatMessage::Message(m) => ChatMessage::Message(
            InnerChatMessage { is_first: spec_is_first_at(s, i), ..m },
        ),
        ChatMessage::DayMarker(t) => ChatMessage::DayMarker(t),
    }
}

/// The messages a window over one chat's history materializes.
pub open spec fn spec_window_messages(s: Seq<ChatMessage>, range: Option<(usize, usize)>) -> Seq<
    ChatMessage,
> {
    let b = spec_window_bounds(range, s.len() as usize);
    Seq::new((b.1 - b.0) as nat, |i: int| spec_marked_at(s, b.0 + i))
}

/// The chat list is the window that the given collection and range
/// determine.
pub open spec fn is_chat_window(
    cl: ChatList,
    chats: Seq<ChatData>,
    range: Option<(usize, usize)>,
) -> bool {
    &&& cl.len == chats.len()
    &&& cl.range == spec_window_bounds(range, chats.len() as usize)
    &&& cl.chats@ == spec_window_chats(chats, range)
}

/// The message list is the window that the given chat id, history and
/// range determine.
pub open spec fn is_message_window(
    ml: MessageList,
    chat_id: u32,
    msgs: Seq<ChatMessage>,
    range: Option<(usize, usize)>,
) -> bool {
    &&& ml.chat_id == chat_id
    &&& ml.range == spec_window_bounds(range, msgs.len() as usize)
    &&& ml.items@ == spec_item_index(msgs)
    &&& ml.messages@ == spec_window_messages(msgs, range)
}

/// Materializes a window over one chat's messages: the clamped range, the
/// item index for the full logical range, and the messages of the range
/// with their first-in-run flags.
pub fn message_window(chat_id: u32, messages: &Vec<ChatMessage>, range: Option<(usize, usize)>)
    -> (r: MessageList)
    ensures
        r.chat_id == chat_id,
        r.range == spec_window_bounds(range, messages@.len() as usize),
        r.range.0 <= r.range.1 <= messages@.len(),
        r.items@ == spec_item_index(messages@),
        r.messages@ == spec_window_messages(messages@, range),
        r.messages@.len() == r.range.1 - r.range.0,
{
    let len = messages.len();
    let mut items: Vec<ChatItem> = Vec::new();
    let mut i: usize = 0;
    while i < len
        invariant
            i <= len,
            len == messages@.len(),
            items@.len() == i,
            forall|k: int| 0 <= k < i ==> items@[k] == spec_item_of(messages@[k]),
        decreases len - i,
    {
        items.push(crate::types::item_of(&messages[i]));
        i += 1;
    }
    proof {
        assert(items@ =~= spec_item_index(messages@));
    }

    let b = window_bounds(range, len);
    let (start, end) = b;
    let mut out: Vec<ChatMessage> = Vec::new();
    let mut j: usize = start;
    while j < end
        invariant
            start <= j <= end <= len,
            len == messages@.len(),
            (start, end) == spec_window_bounds(range, messages@.len() as usize),
            out@.len() == j - start,
            forall|k: int| 0 <= k < out@.len() ==> out@[k] == spec_marked_at(messages@, start + k),
        decreases end - j,
    {
        let marked = match &messages[j] {
            ChatMessage::Message(im) => {
                let first: bool = if j == 0 {
                    true
                } else {
                    match &messages[j - 1] {
                        ChatMessage::DayMarker(_) => true,
                        ChatMessage::Message(p) => p.from_id != im.from_id,
                    }
                };
                let mut c = im.clone();
                c.is_first = first;
                ChatMessage::Message(c)
            },
            ChatMessage::DayMarker(t) => ChatMessage::DayMarker(*t),
        };
        out.push(marked);
        j += 1;
    }
    proof {
        assert(out@ =~= spec_window_messages(messages@, range));
    }
    MessageList { chat_id, range: (start, end), items, messages: out }
}

} // verus!
