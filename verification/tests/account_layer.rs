use dreamer::backend::{Backend, ChatData, ChatVisibility};
use dreamer::local::LocalState;
use dreamer::translator::RawEvent;
use dreamer::types::{
    ChatMessage, ChatState, Event, InnerChatMessage, Log, Login, Progress, Response, Viewtype,
};

fn chat(id: u32, name: &str) -> ChatState {
    ChatState {
        index: None,
        id,
        name: name.to_string(),
        header: String::new(),
        preview: String::new(),
        timestamp: None,
        state: String::new(),
        profile_image: None,
        fresh_msg_cnt: 0,
        can_send: true,
        is_contact_request: false,
        is_self_talk: false,
        is_device_talk: false,
        chat_type: "Single".to_string(),
        color: 0x00ff00,
        member_count: 2,
        is_pinned: false,
        is_archived: false,
    }
}

fn msg(id: u32, from_id: u32, text: &str) -> ChatMessage {
    ChatMessage::Message(InnerChatMessage {
        id,
        from_id,
        from_first_name: String::new(),
        from_profile_image: None,
        from_color: 0,
        viewtype: Viewtype::Text,
        state: String::new(),
        text: Some(text.to_string()),
        quote: None,
        timestamp: None,
        is_info: false,
        file: None,
        file_height: 0,
        file_width: 0,
        is_first: false,
    })
}

/// One account (id 1, logged in as the given address) with two chats,
/// ids 42 and 99.
fn seeded_backend(email: &str) -> Backend {
    let mut b = Backend::new();
    let id = b.add_account();
    b.login(id, email, "secret", true).unwrap();
    b.accounts.entries[0].1.chats = vec![
        ChatData {
            summary: chat(42, "alpha"),
            messages: vec![msg(1, 10, "hi"), msg(2, 10, "there")],
        },
        ChatData {
            summary: chat(99, "beta"),
            messages: vec![msg(3, 11, "yo")],
        },
    ];
    b
}

#[test]
fn test_login_failure_cleanup() {
    let mut ls = LocalState::new(seeded_backend("a@x.com"));
    let id = ls.add_account();
    assert!(ls.accounts.accounts.contains(id));
    ls.login(id, "b@y.org", "wrong", false).unwrap();
    // The failed account is gone from the projection and from the backend.
    let shared = ls.get_state();
    assert!(shared.accounts.get(id).is_none());
    assert!(!ls.accounts.accounts.contains(id));
    assert!(ls.account_states.get(id).is_none());
    assert_eq!(shared.errors, vec!["failed to login".to_string()]);
}

#[test]
fn test_login_success_configures_email() {
    let mut ls = LocalState::new(seeded_backend("a@x.com"));
    let id = ls.add_account();
    ls.login(id, "b@y.org", "right", true).unwrap();
    let shared = ls.get_state();
    assert_eq!(shared.accounts.get(id).unwrap().email, "b@y.org");
}

#[test]
fn test_import_failure_cleanup() {
    let mut ls = LocalState::new(seeded_backend("a@x.com"));
    let id = ls.add_account();
    ls.import(id, "/tmp/backup.tar", false).unwrap();
    assert!(!ls.accounts.accounts.contains(id));
    assert_eq!(ls.errors, vec!["failed to import".to_string()]);
}

#[test]
fn test_select_account_reports_selection() {
    let mut ls = LocalState::new(seeded_backend("a@x.com"));
    let info = ls.select_account(1).unwrap();
    assert_eq!(info.account, 1);
    assert_eq!(info.chat_id, None);
    assert_eq!(ls.select_account(77).unwrap_err(), "invalid account".to_string());
}

#[test]
fn test_select_chat_and_loads() {
    let mut ls = LocalState::new(seeded_backend("a@x.com"));
    ls.select_account(1).unwrap();
    let ml = ls.select_chat(1, 42).unwrap();
    assert_eq!(ml.chat_id, 42);
    assert_eq!(ml.messages.len(), 2);
    let shared = ls.get_state();
    assert_eq!(shared.selected_chat_id, Some(42));
    assert_eq!(shared.selected_chat.as_ref().map(|c| c.id), Some(42));

    let cl = ls.load_chat_list(None).unwrap();
    assert_eq!(cl.len, 2);
    assert_eq!(cl.range, (0, 2));
    assert_eq!(cl.chats[0].id, 42);
    assert_eq!(cl.chats[0].index, Some(0));
    assert_eq!(cl.chats[1].id, 99);
    assert_eq!(cl.chats[1].index, Some(1));

    assert_eq!(ls.select_chat(1, 1000).unwrap_err(), "invalid chat".to_string());
    assert_eq!(ls.select_chat(9, 42).unwrap_err(), "invalid account".to_string());
}

#[test]
fn test_refresh_idempotent() {
    let mut ls = LocalState::new(seeded_backend("a@x.com"));
    ls.select_account(1).unwrap();
    ls.select_chat(1, 42).unwrap();
    // With no intervening backend mutation, reloading gives equal values.
    let cl1 = ls.load_chat_list(None).unwrap();
    let cl2 = ls.load_chat_list(None).unwrap();
    assert_eq!(cl1, cl2);
    let ml1 = ls.load_message_list(None).unwrap();
    let ml2 = ls.load_message_list(None).unwrap();
    assert_eq!(ml1, ml2);
}

#[test]
fn test_load_errors_without_selection() {
    let ls = LocalState::new(seeded_backend("a@x.com"));
    assert_eq!(
        ls.load_chat_list(None).unwrap_err(),
        "no selected account".to_string()
    );
    assert_eq!(
        ls.load_message_list(None).unwrap_err(),
        "no selected account".to_string()
    );
    let mut ls2 = LocalState::new(seeded_backend("a@x.com"));
    ls2.select_account(1).unwrap();
    assert_eq!(
        ls2.load_message_list(None).unwrap_err(),
        "no selected chat".to_string()
    );
}

#[test]
fn test_pin_and_unpin_chat() {
    let mut ls = LocalState::new(seeded_backend("a@x.com"));
    ls.select_account(1).unwrap();
    ls.select_chat(1, 42).unwrap();
    let resp = ls.pin_chat(1, 99).unwrap();
    match resp {
        Response::MessageList { chat_id, .. } => assert_eq!(chat_id, 42),
        _ => panic!("expected a message list"),
    }
    let cl = ls.load_chat_list(None).unwrap();
    assert!(cl.chats[1].is_pinned);
    assert!(!cl.chats[1].is_archived);
    ls.unpin_chat(1, 99).unwrap();
    let cl = ls.load_chat_list(None).unwrap();
    assert!(!cl.chats[1].is_pinned);
}

#[test]
fn test_archive_and_unarchive_chat() {
    let mut ls = LocalState::new(seeded_backend("a@x.com"));
    ls.select_account(1).unwrap();
    ls.select_chat(1, 42).unwrap();
    ls.archive_chat(1, 99).unwrap();
    let cl = ls.load_chat_list(None).unwrap();
    assert!(cl.chats[1].is_archived);
    ls.unarchive_chat(1, 99).unwrap();
    let cl = ls.load_chat_list(None).unwrap();
    assert!(!cl.chats[1].is_archived);
    // Without a selected chat the confirmation load fails.
    let mut ls2 = LocalState::new(seeded_backend("a@x.com"));
    ls2.select_account(1).unwrap();
    assert_eq!(
        ls2.pin_chat(1, 42).unwrap_err(),
        "no selected chat".to_string()
    );
    // The visibility change itself went through regardless.
    let cl2 = ls2.load_chat_list(None).unwrap();
    assert!(cl2.chats[0].is_pinned);
}

#[test]
fn test_accept_contact_request() {
    let mut ls = LocalState::new(seeded_backend("a@x.com"));
    ls.accounts.accounts.entries[0].1.chats[1].summary.is_contact_request = true;
    ls.accounts.accounts.entries[0].1.chats[1].summary.can_send = false;
    ls.accept_contact_request(1, 99).unwrap();
    let a = ls.accounts.accounts.get(1).unwrap();
    assert!(!a.chats[1].summary.is_contact_request);
    assert!(a.chats[1].summary.can_send);
    assert!(ls.accept_contact_request(1, 1000).is_err());
}

#[test]
fn test_block_contact_removes_chat() {
    let mut ls = LocalState::new(seeded_backend("a@x.com"));
    ls.select_account(1).unwrap();
    ls.select_chat(1, 42).unwrap();
    ls.block_contact(1, 42).unwrap();
    let cl = ls.load_chat_list(None).unwrap();
    assert_eq!(cl.len, 1);
    assert_eq!(cl.chats[0].id, 99);
    // The blocked chat was selected; the selection is cleared.
    let shared = ls.get_state();
    assert_eq!(shared.selected_chat_id, None);
}

#[test]
fn test_send_text_message_appends() {
    let mut ls = LocalState::new(seeded_backend("a@x.com"));
    assert_eq!(
        ls.send_text_message("hi".to_string()).unwrap_err(),
        "no account selected".to_string()
    );
    ls.select_account(1).unwrap();
    assert_eq!(
        ls.send_text_message("hi".to_string()).unwrap_err(),
        "no selected chat".to_string()
    );
    ls.select_chat(1, 42).unwrap();
    ls.send_text_message("a new line".to_string()).unwrap();
    let ml = ls.load_message_list(None).unwrap();
    assert_eq!(ml.messages.len(), 3);
    match &ml.messages[2] {
        ChatMessage::Message(im) => {
            assert_eq!(im.text.as_deref(), Some("a new line"));
            assert_eq!(im.viewtype, Viewtype::Text);
            assert_eq!(im.file, None);
        }
        ChatMessage::DayMarker(_) => panic!("expected a message"),
    }
    // Empty text is forwarded as-is.
    ls.send_text_message(String::new()).unwrap();
    let ml = ls.load_message_list(None).unwrap();
    assert_eq!(ml.messages.len(), 4);
    match &ml.messages[3] {
        ChatMessage::Message(im) => assert_eq!(im.text.as_deref(), Some("")),
        ChatMessage::DayMarker(_) => panic!("expected a message"),
    }
}

#[test]
fn test_send_file_message_appends() {
    let mut ls = LocalState::new(seeded_backend("a@x.com"));
    ls.select_account(1).unwrap();
    ls.select_chat(1, 42).unwrap();
    ls.send_file_message(
        Viewtype::Image,
        "/tmp/cat.png".to_string(),
        "a cat".to_string(),
        Some("image/png".to_string()),
    )
    .unwrap();
    let ml = ls.load_message_list(None).unwrap();
    match &ml.messages[2] {
        ChatMessage::Message(im) => {
            assert_eq!(im.viewtype, Viewtype::Image);
            assert_eq!(im.file.as_deref(), Some("/tmp/cat.png"));
            assert_eq!(im.text.as_deref(), Some("a cat"));
        }
        ChatMessage::DayMarker(_) => panic!("expected a message"),
    }
}

#[test]
fn test_maybe_network_is_ok() {
    let ls = LocalState::new(seeded_backend("a@x.com"));
    assert!(ls.maybe_network().is_ok());
}

#[test]
fn test_send_account_details() {
    let mut ls = LocalState::new(seeded_backend("a@x.com"));
    ls.select_account(1).unwrap();
    ls.select_chat(1, 42).unwrap();
    let (shared, cl, ml) = ls.send_account_details(1).unwrap();
    assert_eq!(shared.selected_account, Some(1));
    assert_eq!(cl.unwrap().len, 2);
    assert_eq!(ml.unwrap().chat_id, 42);
}

#[test]
fn test_handle_event_progress_updates_login() {
    let mut ls = LocalState::new(seeded_backend("a@x.com"));
    let ev = ls
        .handle_event(1, RawEvent::ConfigureProgress { progress: 500 })
        .unwrap();
    assert_eq!(ev, Some(Event::Configure(Progress::Step(500))));
    assert_eq!(
        ls.get_state().accounts.get(1).unwrap().logged_in,
        Login::Progress(500)
    );

    // The full scale closes the lifecycle as a success.
    let ev = ls
        .handle_event(1, RawEvent::ConfigureProgress { progress: 1000 })
        .unwrap();
    assert_eq!(ev, Some(Event::Configure(Progress::Success)));
    assert_eq!(
        ls.get_state().accounts.get(1).unwrap().logged_in,
        Login::Success
    );

    // A terminal record never transitions backward: later progress events
    // still translate, but the record stays.
    let ev = ls
        .handle_event(1, RawEvent::ConfigureProgress { progress: 0 })
        .unwrap();
    assert_eq!(ev, Some(Event::Configure(Progress::Error)));
    assert_eq!(
        ls.get_state().accounts.get(1).unwrap().logged_in,
        Login::Success
    );

    let ev = ls.handle_event(1, RawEvent::ImapConnected).unwrap();
    assert_eq!(ev, Some(Event::Connected));
    assert_eq!(
        ls.get_state().accounts.get(1).unwrap().logged_in,
        Login::Success
    );
}

#[test]
fn test_handle_event_progress_failure_is_terminal() {
    let mut ls = LocalState::new(seeded_backend("a@x.com"));
    let ev = ls
        .handle_event(1, RawEvent::ImexProgress { progress: 0 })
        .unwrap();
    assert_eq!(ev, Some(Event::Imex(Progress::Error)));
    assert_eq!(
        ls.get_state().accounts.get(1).unwrap().logged_in,
        Login::Error("failed to import".to_string())
    );

    // Neither a later step nor a connection moves a failed record; only
    // removing the account does.
    ls.handle_event(1, RawEvent::ConfigureProgress { progress: 500 })
        .unwrap();
    assert_eq!(
        ls.get_state().accounts.get(1).unwrap().logged_in,
        Login::Error("failed to import".to_string())
    );
    ls.handle_event(1, RawEvent::SmtpConnected).unwrap();
    assert_eq!(
        ls.get_state().accounts.get(1).unwrap().logged_in,
        Login::Error("failed to import".to_string())
    );

    let mut ls2 = LocalState::new(seeded_backend("a@x.com"));
    let ev = ls2
        .handle_event(1, RawEvent::ConfigureProgress { progress: 0 })
        .unwrap();
    assert_eq!(ev, Some(Event::Configure(Progress::Error)));
    assert_eq!(
        ls2.get_state().accounts.get(1).unwrap().logged_in,
        Login::Error("failed to login".to_string())
    );
}

#[test]
fn test_handle_event_translation() {
    let mut ls = LocalState::new(seeded_backend("a@x.com"));
    let ev = ls
        .handle_event(1, RawEvent::MsgDelivered { chat_id: 42 })
        .unwrap();
    assert_eq!(ev, Some(Event::MessagesChanged { chat_id: 42 }));
    let ev = ls
        .handle_event(1, RawEvent::ChatModified { chat_id: 99 })
        .unwrap();
    assert_eq!(ev, Some(Event::MessagesChanged { chat_id: 99 }));
    let ev = ls
        .handle_event(1, RawEvent::Info("ready".to_string()))
        .unwrap();
    assert_eq!(ev, Some(Event::Log(Log::Info("ready".to_string()))));
    let ev = ls.handle_event(1, RawEvent::ConnectivityChanged).unwrap();
    assert_eq!(ev, None);
    let ev = ls.handle_event(1, RawEvent::Other).unwrap();
    assert_eq!(ev, None);
}

#[test]
fn test_handle_event_incoming_message() {
    let mut ls = LocalState::new(seeded_backend("a@x.com"));
    let ev = ls
        .handle_event(1, RawEvent::IncomingMsg { chat_id: 42, msg_id: 2 })
        .unwrap();
    assert_eq!(
        ev,
        Some(Event::MessageIncoming {
            chat_id: 42,
            title: "alpha".to_string(),
            body: "there".to_string(),
        })
    );
    assert_eq!(
        ls.handle_event(1, RawEvent::IncomingMsg { chat_id: 7, msg_id: 2 })
            .unwrap_err(),
        "failed to load chat".to_string()
    );
    assert_eq!(
        ls.handle_event(1, RawEvent::IncomingMsg { chat_id: 42, msg_id: 77 })
            .unwrap_err(),
        "failed to load msg".to_string()
    );
}
