use dreamer::backend::{Backend, ChatData};
use dreamer::engine::{handle_command, handle_event, init_state, Command, State};
use dreamer::local::LocalState;
use dreamer::types::{ChatMessage, ChatState, Event, InnerChatMessage, Log, Viewtype};

fn chat(id: u32, name: &str) -> ChatState {
    ChatState {
        index: None,
        id,
        name: name.to_string(),
        header: String::new(),
        preview: String::new(),
        timestamp: None,
        state: String::new(),
        profile_image: None,
        fresh_msg_cnt: 0,
        can_send: true,
        is_contact_request: false,
        is_self_talk: false,
        is_device_talk: false,
        chat_type: "Single".to_string(),
        color: 0x0000ff,
        member_count: 2,
        is_pinned: false,
        is_archived: false,
    }
}

fn msg(id: u32, from_id: u32, text: &str) -> ChatMessage {
    ChatMessage::Message(InnerChatMessage {
        id,
        from_id,
        from_first_name: String::new(),
        from_profile_image: None,
        from_color: 0,
        viewtype: Viewtype::Text,
        state: String::new(),
        text: Some(text.to_string()),
        quote: None,
        timestamp: None,
        is_info: false,
        file: None,
        file_height: 0,
        file_width: 0,
        is_first: false,
    })
}

/// Two accounts {1: "a@x.com", 2: "b@x.com"}; account 1 has chats 42 and
/// 99 with a little history.
fn two_account_world() -> LocalState {
    let mut b = Backend::new();
    let a1 = b.add_account();
    b.login(a1, "a@x.com", "pw", true).unwrap();
    let a2 = b.add_account();
    b.login(a2, "b@x.com", "pw", true).unwrap();
    b.accounts.entries[0].1.chats = vec![
        ChatData {
            summary: chat(42, "alpha"),
            messages: vec![msg(1, 10, "hi")],
        },
        ChatData {
            summary: chat(99, "beta"),
            messages: vec![msg(2, 11, "yo")],
        },
    ];
    b.accounts.entries[1].1.chats = vec![ChatData {
        summary: chat(7, "gamma"),
        messages: vec![],
    }];
    LocalState::new(b)
}

#[test]
fn test_init_selects_first_account() {
    let mut ls = two_account_world();
    let mut state = State::default();
    init_state(&mut ls, &mut state);
    assert_eq!(state.shared_state.selected_account, Some(1));
    assert_eq!(state.shared_state.accounts.len(), 2);
    assert_eq!(
        state.shared_state.accounts.get(1).unwrap().email,
        "a@x.com"
    );
    assert_eq!(
        state.shared_state.accounts.get(2).unwrap().email,
        "b@x.com"
    );
    assert_eq!(state.chat_list.len, 2);
    // No chat was remembered, so the message list is untouched.
    assert_eq!(state.shared_state.selected_chat_id, None);
    assert_eq!(state.message_list.chat_id, 0);
}

#[test]
fn test_selection_invariant() {
    let mut ls = two_account_world();
    let mut state = State::default();
    init_state(&mut ls, &mut state);

    handle_command(&mut ls, &mut state, Command::SelectChat(1, 42));
    assert_eq!(state.shared_state.selected_chat_id, Some(42));
    assert_eq!(state.message_list.chat_id, 42);

    handle_command(&mut ls, &mut state, Command::SelectAccount(2));
    assert_eq!(state.shared_state.selected_account, Some(2));
    // Account 2 remembers no chat: the message list is cleared.
    assert_eq!(state.message_list.chat_id, 0);
    assert_eq!(state.message_list.messages.len(), 0);
    assert_eq!(state.chat_list.len, 1);
}

#[test]
fn test_select_account_noop_short_circuit() {
    let mut ls = two_account_world();
    let mut state = State::default();
    init_state(&mut ls, &mut state);
    handle_command(&mut ls, &mut state, Command::SelectChat(1, 42));

    let calls_before = ls.accounts.calls;
    let state_before = format!("{:?}", state.shared_state);
    handle_command(&mut ls, &mut state, Command::SelectAccount(1));
    // Already selected: no backend call, no projection change.
    assert_eq!(ls.accounts.calls, calls_before);
    assert_eq!(format!("{:?}", state.shared_state), state_before);

    // A real switch issues backend calls.
    handle_command(&mut ls, &mut state, Command::SelectAccount(2));
    assert!(ls.accounts.calls > calls_before);
}

#[test]
fn test_event_coalescing() {
    let mut ls = two_account_world();
    let mut state = State::default();
    init_state(&mut ls, &mut state);
    handle_command(&mut ls, &mut state, Command::SelectChat(1, 42));

    let ml_before = format!("{:?}", state.message_list);
    // A change in a chat that is not selected refreshes the chat list but
    // leaves the message list untouched.
    let log = handle_event(&ls, &mut state, Event::MessagesChanged { chat_id: 99 });
    assert_eq!(log, None);
    assert_eq!(format!("{:?}", state.message_list), ml_before);
    assert_eq!(state.chat_list.len, 2);

    // A change in the selected chat refreshes the message list too.
    ls.send_text_message("fresh".to_string()).unwrap();
    let _ = handle_event(&ls, &mut state, Event::MessagesChanged { chat_id: 42 });
    assert_eq!(state.message_list.messages.len(), 2);
}

#[test]
fn test_connected_refreshes_everything() {
    let mut ls = two_account_world();
    let mut state = State::default();
    init_state(&mut ls, &mut state);
    handle_command(&mut ls, &mut state, Command::SelectChat(1, 42));
    state.chat_list.chats.clear();
    let log = handle_event(&ls, &mut state, Event::Connected);
    assert_eq!(log, None);
    assert_eq!(state.chat_list.chats.len(), 2);
    assert_eq!(state.message_list.chat_id, 42);
}

#[test]
fn test_log_events_are_forwarded() {
    let ls = two_account_world();
    let mut state = State::default();
    let log = handle_event(
        &ls,
        &mut state,
        Event::Log(Log::Warning("slow link".to_string())),
    );
    assert_eq!(log, Some(Log::Warning("slow link".to_string())));
}

#[test]
fn test_send_text_command_defers_projection() {
    let mut ls = two_account_world();
    let mut state = State::default();
    init_state(&mut ls, &mut state);
    handle_command(&mut ls, &mut state, Command::SelectChat(1, 42));
    let state_before = format!("{:?}", state);
    handle_command(
        &mut ls,
        &mut state,
        Command::SendTextMessage("hello".to_string()),
    );
    // A send leaves the projection as it is; it catches up on the next
    // change event.
    assert_eq!(format!("{:?}", state), state_before);
    let _ = handle_event(&ls, &mut state, Event::MessagesChanged { chat_id: 42 });
    assert_eq!(state.message_list.messages.len(), 2);
}

#[test]
fn test_incoming_message_scenario() {
    let mut ls = two_account_world();
    let mut state = State::default();
    init_state(&mut ls, &mut state);
    handle_command(&mut ls, &mut state, Command::SelectChat(1, 42));
    assert_eq!(state.shared_state.selected_account, Some(1));
    assert_eq!(state.shared_state.selected_chat_id, Some(42));

    // A message arrives in the selected chat 42: both windows reload.
    ls.accounts.accounts.entries[0].1.chats[0]
        .messages
        .push(msg(50, 10, "incoming"));
    state.chat_list.chats.clear();
    let _ = handle_event(
        &ls,
        &mut state,
        Event::MessageIncoming {
            chat_id: 42,
            title: "alpha".to_string(),
            body: "incoming".to_string(),
        },
    );
    assert_eq!(state.chat_list.chats.len(), 2);
    assert_eq!(state.message_list.messages.len(), 2);

    // A message arrives in chat 99: the chat list reloads, the message
    // list stays as it is.
    ls.accounts.accounts.entries[0].1.chats[1]
        .messages
        .push(msg(51, 11, "elsewhere"));
    state.chat_list.chats.clear();
    let ml_before = format!("{:?}", state.message_list);
    let _ = handle_event(
        &ls,
        &mut state,
        Event::MessageIncoming {
            chat_id: 99,
            title: "beta".to_string(),
            body: "elsewhere".to_string(),
        },
    );
    assert_eq!(state.chat_list.chats.len(), 2);
    assert_eq!(format!("{:?}", state.message_list), ml_before);
}
