use dreamer::color::color_from_u32;
use dreamer::idmap::IdMap;
use dreamer::mailbox::Mailbox;
use dreamer::translator::progress_of;
use dreamer::types::{
    ChatItem, ChatMessage, InnerChatMessage, Login, MessageList, Progress, Viewtype,
};
use dreamer::ui::{truncate, AddAccount};
use dreamer::window::{message_window, window_bounds};

fn msg(id: u32, from_id: u32, text: &str) -> ChatMessage {
    ChatMessage::Message(InnerChatMessage {
        id,
        from_id,
        from_first_name: String::new(),
        from_profile_image: None,
        from_color: 0,
        viewtype: Viewtype::Text,
        state: String::new(),
        text: Some(text.to_string()),
        quote: None,
        timestamp: None,
        is_info: false,
        file: None,
        file_height: 0,
        file_width: 0,
        is_first: false,
    })
}

#[test]
fn test_color_from_u32() {
    assert_eq!(color_from_u32(0), (0, 0, 0));
    assert_eq!(color_from_u32(0xffffff), (255, 255, 255));
    assert_eq!(color_from_u32(0x0000ff), (0, 0, 255));
    assert_eq!(color_from_u32(0x00ff00), (0, 255, 0));
    assert_eq!(color_from_u32(0xff0000), (255, 0, 0));
    assert_eq!(color_from_u32(0xff8000), (255, 128, 0));
}

#[test]
fn test_progress_mapping_values() {
    assert_eq!(progress_of(0), Progress::Error);
    assert_eq!(progress_of(1), Progress::Step(1));
    assert_eq!(progress_of(500), Progress::Step(500));
    assert_eq!(progress_of(999), Progress::Step(999));
    assert_eq!(progress_of(1000), Progress::Success);
}

#[test]
fn test_viewtype_tags_round_trip() {
    let all = [
        Viewtype::Unknown,
        Viewtype::Text,
        Viewtype::Image,
        Viewtype::Gif,
        Viewtype::Sticker,
        Viewtype::Audio,
        Viewtype::Voice,
        Viewtype::Video,
        Viewtype::File,
        Viewtype::VideochatInvitation,
        Viewtype::Webxdc,
    ];
    for v in all {
        assert_eq!(Viewtype::from_i32(v.to_i32()), Some(v));
    }
    assert_eq!(Viewtype::Text.to_i32(), 10);
    assert_eq!(Viewtype::Webxdc.to_i32(), 80);
    assert_eq!(Viewtype::from_i32(11), None);
}

#[test]
fn test_idmap_insert_get_remove() {
    let mut m: IdMap<u32> = IdMap::new();
    assert_eq!(m.len(), 0);
    m.insert(7, 70);
    m.insert(3, 30);
    assert_eq!(m.len(), 2);
    assert_eq!(m.get(7), Some(&70));
    assert_eq!(m.get(3), Some(&30));
    assert_eq!(m.get(4), None);
    m.insert(7, 71);
    assert_eq!(m.len(), 2);
    assert_eq!(m.get(7), Some(&71));
    assert_eq!(m.first().map(|e| e.0), Some(7));
    m.remove(7);
    assert_eq!(m.get(7), None);
    assert_eq!(m.len(), 1);
    assert_eq!(m.first().map(|e| e.0), Some(3));
}

#[test]
fn test_mailbox_fifo_and_bound() {
    let mut q: Mailbox<u32> = Mailbox::new(2);
    assert!(q.is_empty());
    assert!(q.try_send(1));
    assert!(q.try_send(2));
    assert!(!q.try_send(3));
    assert_eq!(q.len(), 2);
    assert_eq!(q.recv(), Some(1));
    assert_eq!(q.recv(), Some(2));
    assert_eq!(q.recv(), None);
}

#[test]
fn test_window_bounds_clamping() {
    assert_eq!(window_bounds(None, 5), (0, 5));
    assert_eq!(window_bounds(Some((1, 3)), 5), (1, 3));
    assert_eq!(window_bounds(Some((4, 9)), 5), (4, 5));
    assert_eq!(window_bounds(Some((9, 9)), 5), (5, 5));
    assert_eq!(window_bounds(Some((3, 1)), 5), (3, 3));
}

#[test]
fn test_message_window_marks_first_in_run() {
    let msgs = vec![
        msg(1, 10, "a"),
        msg(2, 10, "b"),
        ChatMessage::DayMarker(86400),
        msg(3, 10, "c"),
        msg(4, 11, "d"),
    ];
    let ml = message_window(42, &msgs, None);
    assert_eq!(ml.chat_id, 42);
    assert_eq!(ml.range, (0, 5));
    assert_eq!(
        ml.items,
        vec![
            ChatItem::Message(1),
            ChatItem::Message(2),
            ChatItem::DayMarker(86400),
            ChatItem::Message(3),
            ChatItem::Message(4),
        ]
    );
    let firsts: Vec<Option<bool>> = ml
        .messages
        .iter()
        .map(|m| match m {
            ChatMessage::Message(im) => Some(im.is_first),
            ChatMessage::DayMarker(_) => None,
        })
        .collect();
    assert_eq!(
        firsts,
        vec![Some(true), Some(false), None, Some(true), Some(true)]
    );
}

#[test]
fn test_message_window_sub_range() {
    let msgs = vec![msg(1, 10, "a"), msg(2, 10, "b"), msg(3, 11, "c")];
    let ml = message_window(7, &msgs, Some((1, 3)));
    assert_eq!(ml.range, (1, 3));
    // The item index always covers the full logical range.
    assert_eq!(ml.items.len(), 3);
    assert_eq!(ml.messages.len(), 2);
    match &ml.messages[0] {
        ChatMessage::Message(im) => {
            assert_eq!(im.id, 2);
            // Message 2 follows message 1 from the same sender.
            assert!(!im.is_first);
        }
        ChatMessage::DayMarker(_) => panic!("expected a message"),
    }
}

#[test]
fn test_message_list_clear() {
    let msgs = vec![msg(1, 10, "a")];
    let mut ml = message_window(42, &msgs, None);
    ml.clear();
    assert_eq!(
        ml,
        MessageList {
            chat_id: 0,
            range: (0, 0),
            items: vec![],
            messages: vec![],
        }
    );
}

#[test]
fn test_login_default() {
    assert_eq!(Login::default(), Login::Not);
}

#[test]
fn test_add_account_form_empty() {
    let form = AddAccount::new();
    assert_eq!(form.email, "");
    assert_eq!(form.password, "");
}

#[test]
fn test_truncate() {
    assert_eq!(truncate("hello", 20), "hello");
    assert_eq!(truncate("a chat with a very long name", 6), "a chat ...");
    // The threshold counts encoded bytes; the cut counts characters.
    assert_eq!(truncate("éé", 2), "éé ...");
    assert_eq!(truncate("éé", 4), "éé");
}
