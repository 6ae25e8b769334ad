//! The synchronization engine: the sole writer of the shared projection.
//! A host task drains a command queue and a translated-event queue, hands
//! each item to the handlers here, and asks the UI to repaint at least
//! once per processed item — redundant repaints are the UI's cheap no-op.
//! Refreshes read the backend wholesale, so a command and an event
//! processed in either order reconcile to the same projection.

use vstd::prelude::*;

use crate::local::{LocalState, is_snapshot};
use crate::types::{
    ChatItem, ChatList, ChatMessage, ChatState, Event, Log, MessageList, SharedState,
};
use crate::window::{
    is_chat_window, is_message_window, spec_item_index, spec_window_bounds, spec_window_chats,
    spec_window_messages,
};

verus! {

/// A user-initiated intent, sent from the UI thread over the command
/// mailbox.
#[derive(Debug, PartialEq)]
pub enum Command {
    SelectChat(u32, u32),
    SelectAccount(u32),
    SendTextMessage(String),
}

/// The shared projection: the snapshot the UI reads each frame, plus the
/// materialized chat and message windows.
#[derive(Debug, PartialEq)]
pub struct State {
    pub shared_state: SharedState,
    pub message_list: MessageList,
    pub chat_list: ChatList,
}

impl Default for State {
    fn default() -> (r: Self)
        ensures
            r.shared_state.accounts.wf(),
            r.shared_state.accounts.spec_len() == 0,
            forall|k: u32| !r.shared_state.accounts.contains_key(k),
            r.shared_state.errors@ =~= Seq::<String>::empty(),
            r.shared_state.selected_account is None,
            r.shared_state.selected_chat_id is None,
            r.shared_state.selected_chat is None,
            r.message_list.chat_id == 0,
            r.message_list.range == (0usize, 0usize),
            r.message_list.items@ =~= Seq::<ChatItem>::empty(),
            r.message_list.messages@ =~= Seq::<ChatMessage>::empty(),
            r.chat_list.range == (0usize, 0usize),
            r.chat_list.len == 0,
            r.chat_list.chats@ =~= Seq::<ChatState>::empty(),
    {
        State {
            shared_state: Default::default(),
            message_list: Default::default(),
            chat_list: Default::default(),
        }
    }
}

/// The projection's list views, as one ghost value: what a refresh
/// rewrites.
pub struct ListsView {
    pub chat_range: (usize, usize),
    pub chat_total: usize,
    pub chats: Seq<ChatState>,
    pub message_chat: u32,
    pub message_range: (usize, usize),
    pub items: Seq<ChatItem>,
    pub messages: Seq<ChatMessage>,
}

/// The list views a projection holds.
pub open spec fn lists_view(s: State) -> ListsView {
    ListsView {
        chat_range: s.chat_list.range,
        chat_total: s.chat_list.len,
        chats: s.chat_list.chats@,
        message_chat: s.message_list.chat_id,
        message_range: s.message_list.range,
        items: s.message_list.items@,
        messages: s.message_list.messages@,
    }
}

/// What a full refresh against the engine's world leaves in the list
/// views: the selected account's whole chat window, and — if that account
/// has a selected chat — its whole message window; the message views are
/// kept as they are when no chat is selected.
pub open spec fn spec_refresh_lists(prior: ListsView, l: LocalState) -> ListsView {
    let chats = l.accounts.spec_account(l.accounts.selected->Some_0).chats@;
    let with_chats = ListsView {
        chat_range: spec_window_bounds(None::<(usize, usize)>, chats.len() as usize),
        chat_total: chats.len() as usize,
        chats: spec_window_chats(chats, None::<(usize, usize)>),
        ..prior
    };
    match l.spec_selected_chat_id() {
        Some(c) => {
            let msgs = l.accounts.spec_account(l.accounts.selected->Some_0).spec_chat(c).messages@;
            ListsView {
                message_chat: c,
                message_range: spec_window_bounds(None::<(usize, usize)>, msgs.len() as usize),
                items: spec_item_index(msgs),
                messages: spec_window_messages(msgs, None::<(usize, usize)>),
                ..with_chats
            }
        },
        None => with_chats,
    }
}

/// Refreshing is idempotent: with no intervening backend mutation, a
/// second full refresh leaves exactly the list views the first one built.
pub proof fn lemma_refresh_idempotent(prior: ListsView, l: LocalState)
    ensures
        spec_refresh_lists(spec_refresh_lists(prior, l), l) == spec_refresh_lists(prior, l),
{
}

/// The event makes the engine reload windows from the backend, which
/// needs a selected account.
pub open spec fn event_needs_selected(e: Event) -> bool {
    match e {
        Event::Connected => true,
        Event::MessagesChanged { .. } => true,
        Event::MessageIncoming { .. } => true,
        _ => false,
    }
}

/// Runs once before the main loop: snapshots the projection, selects the
/// first account (stable record order), loads its chat window and — if it
/// remembers a chat — that chat's message window.
pub fn init_state(ls: &mut LocalState, state: &mut State)
    requires
        old(ls).wf(),
        old(ls).account_states.spec_len() > 0,
    ensures
        final(ls).wf(),
        final(ls).account_states == old(ls).account_states,
        final(ls).accounts.accounts == old(ls).accounts.accounts,
        final(ls).errors == old(ls).errors,
        final(ls).accounts.selected == Some(final(ls).account_states.key_seq()[0]),
        is_snapshot(*final(ls), final(state).shared_state),
        is_chat_window(
            final(state).chat_list,
            final(ls).accounts.spec_account(final(ls).accounts.selected->Some_0).chats@,
            None::<(usize, usize)>,
        ),
        final(ls).spec_selected_chat_id() matches Some(c) ==> is_message_window(
            final(state).message_list,
            c,
            final(ls).accounts.spec_account(final(ls).accounts.selected->Some_0).spec_chat(
                c,
            ).messages@,
            None::<(usize, usize)>,
        ),
        final(ls).spec_selected_chat_id() is None ==> final(state).message_list == old(state).message_list,
{
    let shared = ls.get_state();
    state.shared_state = shared;
    proof {
        assert(state.shared_state.accounts.key_seq().len()
            == state.shared_state.accounts.spec_len());
        assert(ls.account_states.key_seq().len() == ls.account_states.spec_len());
    }

    let first_id: u32 = match state.shared_state.accounts.first() {
        Some(e) => e.0,
        None => {
            proof {
                assert(false);
            }
            0
        },
    };
    proof {
        crate::idmap::lemma_get_at_index(state.shared_state.accounts.entries_seq(), 0);
        assert(state.shared_state.accounts.contains_key(first_id));
        assert(ls.has_account(first_id));
    }
    let info = match ls.select_account(first_id) {
        Ok(info) => info,
        Err(_) => {
            proof {
                assert(false);
            }
            crate::types::AccountInfo { account: first_id, chat_id: None, chat: None }
        },
    };
    state.shared_state.selected_account = Some(info.account);
    state.shared_state.selected_chat_id = info.chat_id;
    state.shared_state.selected_chat = info.chat;

    let cl = match ls.load_chat_list(None) {
        Ok(cl) => cl,
        Err(_) => {
            proof {
                assert(false);
            }
            Default::default()
        },
    };
    state.chat_list = cl;
    if state.shared_state.selected_chat_id.is_some() {
        let ml = match ls.load_message_list(None) {
            Ok(ml) => ml,
            Err(_) => {
                proof {
                    assert(false);
                }
                Default::default()
            },
        };
        state.message_list = ml;
    }
    proof {
        assert(final(ls).account_states.key_seq()[0] == old(ls).account_states.entries_seq()[0].0);
        assert forall|k: u32| #[trigger] state.shared_state.accounts.contains_key(k)
            implies state.shared_state.accounts.spec_get(k) == Some(
            crate::local::spec_shared_account(ls.state_of(k), ls.accounts.spec_account(k)),
        ) by {
            assert(state.shared_state.accounts.spec_get(k) == Some(
                crate::local::spec_shared_account(
                    old(ls).state_of(k),
                    old(ls).accounts.spec_account(k),
                ),
            ));
        }
        assert forall|k: u32| state.shared_state.accounts.contains_key(k) == ls.has_account(
            k,
        ) by {
            assert(state.shared_state.accounts.contains_key(k) == old(ls).has_account(k));
        }
        assert(is_snapshot(*ls, state.shared_state));
    }
}

/// Handles one translated event: progress events were applied upstream,
/// log lines are handed back for the process sink, a connection refreshes
/// everything, and message changes refresh the chat window always but the
/// message window only when the changed chat is the selected one. The
/// host repaints after every event.
pub fn handle_event(ls: &LocalState, state: &mut State, event: Event) -> (log: Option<Log>)
    requires
        ls.wf(),
        event_needs_selected(event) ==> ls.accounts.selected is Some,
        event_needs_selected(event) ==> old(state).shared_state.selected_chat_id
            == ls.spec_selected_chat_id(),
    ensures
        match event {
            Event::Configure(_) => *final(state) == *old(state) && log is None,
            Event::Imex(_) => *final(state) == *old(state) && log is None,
            Event::Log(l) => *final(state) == *old(state) && log == Some(l),
            Event::Connected => {
                &&& log is None
                &&& is_snapshot(*ls, final(state).shared_state)
                &&& lists_view(*final(state)) == spec_refresh_lists(lists_view(*old(state)), *ls)
            },
            Event::MessagesChanged { chat_id } => {
                &&& log is None
                &&& final(state).shared_state == old(state).shared_state
                &&& is_chat_window(
                    final(state).chat_list,
                    ls.accounts.spec_account(ls.accounts.selected->Some_0).chats@,
                    None::<(usize, usize)>,
                )
                &&& (old(state).shared_state.selected_chat_id == Some(chat_id)
                    ==> is_message_window(
                    final(state).message_list,
                    chat_id,
                    ls.accounts.spec_account(ls.accounts.selected->Some_0).spec_chat(
                        chat_id,
                    ).messages@,
                    None::<(usize, usize)>,
                ))
                &&& (old(state).shared_state.selected_chat_id != Some(chat_id) ==> final(state).message_list == old(state).message_list)
            },
            Event::MessageIncoming { chat_id, .. } => {
                &&& log is None
                &&& final(state).shared_state == old(state).shared_state
                &&& is_chat_window(
                    final(state).chat_list,
                    ls.accounts.spec_account(ls.accounts.selected->Some_0).chats@,
                    None::<(usize, usize)>,
                )
                &&& (old(state).shared_state.selected_chat_id == Some(chat_id)
                    ==> is_message_window(
                    final(state).message_list,
                    chat_id,
                    ls.accounts.spec_account(ls.accounts.selected->Some_0).spec_chat(
                        chat_id,
                    ).messages@,
                    None::<(usize, usize)>,
                ))
                &&& (old(state).shared_state.selected_chat_id != Some(chat_id) ==> final(state).message_list == old(state).message_list)
            },
        },
{
    match event {
        Event::Configure(_) => None,
        Event::Imex(_) => None,
        Event::Log(l) => Some(l),
        Event::Connected => {
            state.shared_state = ls.get_state();
            let cl = match ls.load_chat_list(None) {
                Ok(cl) => cl,
                Err(_) => {
                    proof {
                        assert(false);
                    }
                    Default::default()
                },
            };
            state.chat_list = cl;
            if state.shared_state.selected_chat_id.is_some() {
                let ml = match ls.load_message_list(None) {
                    Ok(ml) => ml,
                    Err(_) => {
                        proof {
                            assert(false);
                        }
                        Default::default()
                    },
                };
                state.message_list = ml;
            }
            None
        },
        Event::MessagesChanged { chat_id } => {
            refresh_on_change(ls, state, chat_id);
            None
        },
        Event::MessageIncoming { chat_id, .. } => {
            refresh_on_change(ls, state, chat_id);
            None
        },
    }
}

/// The invalidation a message change carries: reload the chat window
/// unconditionally, the message window only if the changed chat is the
/// selected one.
fn refresh_on_change(ls: &LocalState, state: &mut State, chat_id: u32)
    requires
        ls.wf(),
        ls.accounts.selected is Some,
        old(state).shared_state.selected_chat_id == ls.spec_selected_chat_id(),
    ensures
        final(state).shared_state == old(state).shared_state,
        is_chat_window(
            final(state).chat_list,
            ls.accounts.spec_account(ls.accounts.selected->Some_0).chats@,
            None::<(usize, usize)>,
        ),
        old(state).shared_state.selected_chat_id == Some(chat_id) ==> is_message_window(
            final(state).message_list,
            chat_id,
            ls.accounts.spec_account(ls.accounts.selected->Some_0).spec_chat(chat_id).messages@,
            None::<(usize, usize)>,
        ),
        old(state).shared_state.selected_chat_id != Some(chat_id) ==> final(state).message_list
            == old(state).message_list,
{
    let cl = match ls.load_chat_list(None) {
        Ok(cl) => cl,
        Err(_) => {
            proof {
                assert(false);
            }
            Default::default()
        },
    };
    state.chat_list = cl;
    if let Some(old_chat_id) = state.shared_state.selected_chat_id {
        if chat_id == old_chat_id {
            let ml = match ls.load_message_list(None) {
                Ok(ml) => ml,
                Err(_) => {
                    proof {
                        assert(false);
                    }
                    Default::default()
                },
            };
            state.message_list = ml;
        }
    }
}

/// Handles one user command; the host repaints after every processed
/// command, whether or not anything moved. Selecting the already-selected
/// account is a no-op: no backend call is issued and nothing in the
/// projection or the engine's world moves.
pub fn handle_command(ls: &mut LocalState, state: &mut State, cmd: Command)
    requires
        old(ls).wf(),
        match cmd {
            Command::SelectChat(account, chat) => old(ls).has_account(account) && old(ls).accounts.spec_account(account).has_chat(chat),
            Command::SelectAccount(account) => old(state).shared_state.selected_account == Some(
                account,
            ) || old(ls).has_account(account),
            Command::SendTextMessage(_) => old(ls).accounts.selected is Some && old(ls).spec_selected_chat_id() is Some
                && old(ls).accounts.next_msg_id < u32::MAX,
        },
    ensures
        final(ls).wf(),
        match cmd {
            Command::SelectChat(account, chat) => {
                &&& final(ls).accounts == old(ls).accounts
                &&& final(ls).errors == old(ls).errors
                &&& final(ls).state_of(account).selected_chat_id == Some(chat)
                &&& is_snapshot(*final(ls), final(state).shared_state)
                &&& is_message_window(
                    final(state).message_list,
                    chat,
                    old(ls).accounts.spec_account(account).spec_chat(chat).messages@,
                    None::<(usize, usize)>,
                )
                &&& final(state).message_list.chat_id == chat
                &&& final(state).chat_list == old(state).chat_list
                &&& (old(ls).accounts.selected == Some(account) ==> final(state).shared_state.selected_chat_id == Some(chat))
            },
            Command::SelectAccount(account) => {
                &&& (old(state).shared_state.selected_account == Some(account) ==> *final(ls)
                    == *old(ls) && *final(state) == *old(state))
                &&& (old(state).shared_state.selected_account != Some(account) ==> {
                    &&& final(ls).accounts.selected == Some(account)
                    &&& final(ls).account_states == old(ls).account_states
                    &&& final(ls).accounts.accounts == old(ls).accounts.accounts
                    &&& final(ls).errors == old(ls).errors
                    &&& final(state).shared_state.selected_account == Some(account)
                    &&& is_snapshot(*final(ls), final(state).shared_state)
                    &&& is_chat_window(
                        final(state).chat_list,
                        final(ls).accounts.spec_account(account).chats@,
                        None::<(usize, usize)>,
                    )
                    &&& (final(ls).state_of(account).selected_chat_id matches Some(c)
                        ==> is_message_window(
                        final(state).message_list,
                        c,
                        final(ls).accounts.spec_account(account).spec_chat(c).messages@,
                        None::<(usize, usize)>,
                    ))
                    &&& (final(ls).state_of(account).selected_chat_id is None ==> final(state).message_list.chat_id == 0 && final(state).message_list.range == (
                        0usize,
                        0usize,
                    ) && final(state).message_list.items@ =~= Seq::<ChatItem>::empty() && final(state).message_list.messages@ =~= Seq::<ChatMessage>::empty())
                })
            },
            Command::SendTextMessage(text) => {
                let id = old(ls).accounts.selected->Some_0;
                let chat_id = old(ls).spec_selected_chat_id()->Some_0;
                let chats0 = old(ls).accounts.spec_account(id).chats@;
                let chats1 = final(ls).accounts.spec_account(id).chats@;
                let i = crate::backend::chat_index_of(chats0, chat_id);
                &&& *final(state) == *old(state)
                &&& final(ls).account_states == old(ls).account_states
                &&& final(ls).errors == old(ls).errors
                &&& final(ls).accounts.selected == old(ls).accounts.selected
                &&& chats1.len() == chats0.len()
                &&& (forall|j: int| 0 <= j < chats0.len() && j != i ==> chats1[j] == chats0[j])
                &&& chats1[i].summary == chats0[i].summary
                &&& chats1[i].messages@ == chats0[i].messages@.push(chats1[i].messages@.last())
                &&& crate::backend::is_fresh_text_message(
                    chats1[i].messages@.last(),
                    old(ls).accounts.next_msg_id,
                    text,
                )
            },
        },
{
    match cmd {
        Command::SelectChat(account, chat) => {
            let ml = match ls.select_chat(account, chat) {
                Ok(ml) => ml,
                Err(_) => {
                    proof {
                        assert(false);
                    }
                    Default::default()
                },
            };
            state.message_list = ml;
            state.shared_state = ls.get_state();
        },
        Command::SelectAccount(account) => {
            let already = match state.shared_state.selected_account {
                Some(a) => a == account,
                None => false,
            };
            if !already {
                match ls.select_account(account) {
                    Ok(_) => {},
                    Err(_) => {
                        proof {
                            assert(false);
                        }
                    },
                }
                state.shared_state = ls.get_state();
                let cl = match ls.load_chat_list(None) {
                    Ok(cl) => cl,
                    Err(_) => {
                        proof {
                            assert(false);
                        }
                        Default::default()
                    },
                };
                state.chat_list = cl;
                if state.shared_state.selected_chat_id.is_some() {
                    let ml = match ls.load_message_list(None) {
                        Ok(ml) => ml,
                        Err(_) => {
                            proof {
                                assert(false);
                            }
                            Default::default()
                        },
                    };
                    state.message_list = ml;
                } else {
                    state.message_list.clear();
                }
            }
        },
        Command::SendTextMessage(text) => {
            match ls.send_text_message(text) {
                Ok(_) => {},
                Err(_) => {
                    proof {
                        assert(false);
                    }
                },
            }
        },
    }
}

} // verus!
