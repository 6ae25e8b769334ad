//! The account layer: engine-side per-account records (login lifecycle,
//! remembered chat selection) over the backend, and the operations the
//! engine issues — account lifecycle, selection, windowed loads, sends,
//! and the translation of raw backend events into application events.

use vstd::prelude::*;

use crate::backend::{
    Backend, BackendAccount, ChatVisibility, bumped, chat_index_of, fail_import,
    fail_invalid_account, fail_login, message_matches, message_text_in, spec_fail_import,
    spec_fail_invalid_account, spec_fail_invalid_chat, spec_fail_login,
};
use crate::idmap::IdMap;
use crate::translator::{RawEvent, event_needs_account, spec_progress_of};
use crate::types::{
    AccountInfo, ChatList, ChatMessage, ChatState, Event, Log, Login, MessageList, Progress,
    Response, SharedAccountState, SharedState, Viewtype, clone_opt_chat, clone_opt_string,
    clone_strings, login_terminal, spec_login_after,
};
use crate::window::{
    chat_window, is_chat_window, is_message_window, message_window, spec_item_index,
    spec_window_bounds, spec_window_chats, spec_window_messages,
};

verus! {

/// Engine-side record of one account: its login lifecycle and the chat
/// selection remembered for it, with a denormalized copy of the selected
/// chat's summary.
#[derive(Debug, PartialEq)]
pub struct AccountState {
    pub logged_in: Login,
    pub selected_chat_id: Option<u32>,
    pub selected_chat: Option<ChatState>,
}

impl AccountState {
    /// A fresh record: login not started, no chat selected.
    pub fn new() -> (r: Self)
        ensures
            r == (AccountState { logged_in: Login::Not, selected_chat_id: None, selected_chat: None }),
    {
        AccountState { logged_in: Login::Not, selected_chat_id: None, selected_chat: None }
    }
}

impl Clone for AccountState {
    fn clone(&self) -> (r: Self)
        ensures
            r == *self,
    {
        AccountState {
            logged_in: self.logged_in.clone(),
            selected_chat_id: self.selected_chat_id,
            selected_chat: clone_opt_chat(&self.selected_chat),
        }
    }
}

/// The engine's view of the world: one record per backend account, the
/// backend itself, and the accumulated non-fatal errors.
#[derive(Debug, PartialEq)]
pub struct LocalState {
    pub account_states: IdMap<AccountState>,
    pub accounts: Backend,
    pub errors: Vec<String>,
}

/// The record is consistent with the backend account it describes: a
/// remembered chat selection names an existing chat, and the denormalized
/// summary is present exactly when a chat is selected.
pub open spec fn state_ok(st: AccountState, a: BackendAccount) -> bool {
    &&& (st.selected_chat_id matches Some(c) ==> a.has_chat(c))
    &&& (st.selected_chat_id is Some <==> st.selected_chat is Some)
}

/// The per-account summary the projection shows for a record and its
/// backend account.
pub open spec fn spec_shared_account(st: AccountState, a: BackendAccount) -> SharedAccountState {
    SharedAccountState {
        logged_in: st.logged_in,
        email: a.email,
        profile_image: a.profile_image,
        display_name: a.display_name,
    }
}

/// The shared-state value is the projection snapshot of the engine's
/// world: one summary per account record, in record order, the error log,
/// and the current selection with its remembered chat.
pub open spec fn is_snapshot(l: LocalState, r: SharedState) -> bool {
    &&& r.accounts.wf()
    &&& r.accounts.key_seq() == l.account_states.key_seq()
    &&& (forall|k: u32| r.accounts.contains_key(k) == l.has_account(k))
    &&& (forall|k: u32|
        #[trigger] r.accounts.contains_key(k) ==> r.accounts.spec_get(k) == Some(
            spec_shared_account(l.state_of(k), l.accounts.spec_account(k)),
        ))
    &&& r.errors@ == l.errors@
    &&& r.selected_account == l.accounts.selected
    &&& r.selected_chat_id == l.spec_selected_chat_id()
    &&& r.selected_chat == l.spec_selected_chat()
}

impl LocalState {
    /// The backend is well formed, the records mirror its account set, and
    /// each record is consistent with its account.
    pub open spec fn wf(self) -> bool {
        &&& self.accounts.wf()
        &&& self.account_states.wf()
        &&& (forall|k: u32|
            #[trigger] self.account_states.contains_key(k) ==> self.accounts.has_account(k))
        &&& (forall|k: u32|
            #[trigger] self.accounts.has_account(k) ==> self.account_states.contains_key(k))
        &&& (forall|k: u32|
            #[trigger] self.account_states.contains_key(k) ==> state_ok(
                self.state_of(k),
                self.accounts.spec_account(k),
            ))
    }

    pub open spec fn has_account(self, id: u32) -> bool {
        self.account_states.contains_key(id)
    }

    /// The record of the account carrying the id.
    pub open spec fn state_of(self, id: u32) -> AccountState {
        self.account_states.spec_get(id)->Some_0
    }

    /// The chat selection the projection shows: the selected account's, if
    /// one is selected.
    pub open spec fn spec_selected_chat_id(self) -> Option<u32> {
        match self.accounts.selected {
            Some(id) => self.state_of(id).selected_chat_id,
            None => None,
        }
    }

    /// The denormalized selected-chat summary the projection shows.
    pub open spec fn spec_selected_chat(self) -> Option<ChatState> {
        match self.accounts.selected {
            Some(id) => self.state_of(id).selected_chat,
            None => None,
        }
    }

    /// Restores the engine's records over a loaded backend: one fresh
    /// record per account. A backend without accounts is a fatal
    /// configuration error the host reports before calling this.
    pub fn new(accounts: Backend) -> (r: Self)
        requires
            accounts.wf(),
            accounts.accounts.spec_len() > 0,
        ensures
            r.wf(),
            r.accounts == accounts,
            r.errors@ =~= Seq::<String>::empty(),
            forall|k: u32| r.has_account(k) == accounts.has_account(k),
            forall|k: u32|
                #[trigger] r.has_account(k) ==> r.state_of(k) == (AccountState {
                    logged_in: Login::Not,
                    selected_chat_id: None,
                    selected_chat: None,
                }),
            r.account_states.key_seq() == accounts.accounts.key_seq(),
    {
        let n = accounts.accounts.len();
        let mut account_states: IdMap<AccountState> = IdMap::new();
        let mut i: usize = 0;
        while i < n
            invariant
                accounts.wf(),
                n == accounts.accounts.spec_len(),
                i <= n,
                account_states.wf(),
                account_states.key_seq() =~= accounts.accounts.key_seq().take(i as int),
                forall|k: u32|
                    #[trigger] account_states.contains_key(k) == crate::idmap::seq_contains_key(
                        accounts.accounts.entries_seq().take(i as int),
                        k,
                    ),
                forall|k: u32|
                    #[trigger] account_states.contains_key(k)
                        ==> account_states.spec_get(k) == Some(
                        AccountState {
                            logged_in: Login::Not,
                            selected_chat_id: None,
                            selected_chat: None,
                        },
                    ),
            decreases n - i,
        {
            let e = accounts.accounts.entry_at(i);
            proof {
                crate::idmap::lemma_get_at_index(accounts.accounts.entries_seq(), i as int);
                assert(!crate::idmap::seq_contains_key(
                    accounts.accounts.entries_seq().take(i as int),
                    e.0,
                )) by {
                    if crate::idmap::seq_contains_key(
                        accounts.accounts.entries_seq().take(i as int),
                        e.0,
                    ) {
                        let j = crate::idmap::seq_index_of_key(
                            accounts.accounts.entries_seq().take(i as int),
                            e.0,
                        );
                        assert(accounts.accounts.entries_seq()[j]
                            == accounts.accounts.entries_seq().take(i as int)[j]);
                    }
                }
                assert forall|k: u32|
                    crate::idmap::seq_contains_key(
                        accounts.accounts.entries_seq().take(i + 1),
                        k,
                    ) == (crate::idmap::seq_contains_key(
                        accounts.accounts.entries_seq().take(i as int),
                        k,
                    ) || accounts.accounts.entries_seq()[i as int].0 == k) by {
                    crate::idmap::lemma_contains_take_step(
                        accounts.accounts.entries_seq(),
                        i as int,
                        k,
                    );
                }
            }
            account_states.insert(e.0, AccountState::new());
            proof {
                assert(account_states.key_seq() =~= accounts.accounts.key_seq().take(i + 1));
            }
            i += 1;
        }
        proof {
            assert(accounts.accounts.entries_seq().take(n as int)
                =~= accounts.accounts.entries_seq());
            assert(account_states.key_seq() =~= accounts.accounts.key_seq());
        }
        LocalState { account_states, accounts, errors: Vec::new() }
    }

    /// The projection snapshot: per-account summaries in record order, the
    /// accumulated errors, and the current selection.
    pub fn to_response(&self) -> (r: SharedState)
        requires
            self.wf(),
        ensures
            is_snapshot(*self, r),
    {
        let n = self.account_states.len();
        let mut accounts: IdMap<SharedAccountState> = IdMap::new();
        let mut i: usize = 0;
        while i < n
            invariant
                self.wf(),
                n == self.account_states.spec_len(),
                i <= n,
                accounts.wf(),
                accounts.key_seq() =~= self.account_states.key_seq().take(i as int),
                forall|k: u32|
                    #[trigger] accounts.contains_key(k) == crate::idmap::seq_contains_key(
                        self.account_states.entries_seq().take(i as int),
                        k,
                    ),
                forall|k: u32|
                    #[trigger] accounts.contains_key(k) ==> accounts.spec_get(k) == Some(
                        spec_shared_account(self.state_of(k), self.accounts.spec_account(k)),
                    ),
            decreases n - i,
        {
            let e = self.account_states.entry_at(i);
            let id = e.0;
            proof {
                crate::idmap::lemma_get_at_index(self.account_states.entries_seq(), i as int);
                assert(self.account_states.contains_key(id));
                assert(self.accounts.has_account(id));
            }
            let a = self.accounts.accounts.get(id).unwrap();
            let sa = SharedAccountState {
                logged_in: e.1.logged_in.clone(),
                email: a.email.clone(),
                profile_image: clone_opt_string(&a.profile_image),
                display_name: clone_opt_string(&a.display_name),
            };
            proof {
                crate::idmap::lemma_get_at_index(self.account_states.entries_seq(), i as int);
                assert(!crate::idmap::seq_contains_key(
                    self.account_states.entries_seq().take(i as int),
                    id,
                )) by {
                    if crate::idmap::seq_contains_key(
                        self.account_states.entries_seq().take(i as int),
                        id,
                    ) {
                        let j = crate::idmap::seq_index_of_key(
                            self.account_states.entries_seq().take(i as int),
                            id,
                        );
                        assert(self.account_states.entries_seq()[j]
                            == self.account_states.entries_seq().take(i as int)[j]);
                    }
                }
                assert forall|k: u32|
                    crate::idmap::seq_contains_key(
                        self.account_states.entries_seq().take(i + 1),
                        k,
                    ) == (crate::idmap::seq_contains_key(
                        self.account_states.entries_seq().take(i as int),
                        k,
                    ) || self.account_states.entries_seq()[i as int].0 == k) by {
                    crate::idmap::lemma_contains_take_step(
                        self.account_states.entries_seq(),
                        i as int,
                        k,
                    );
                }
            }
            accounts.insert(id, sa);
            proof {
                assert(accounts.key_seq() =~= self.account_states.key_seq().take(i + 1));
            }
            i += 1;
        }
        proof {
            assert(self.account_states.entries_seq().take(n as int)
                =~= self.account_states.entries_seq());
            assert(accounts.key_seq() =~= self.account_states.key_seq());
        }
        let errors = clone_strings(&self.errors);
        let selected_account = self.accounts.get_selected_account();
        let (selected_chat_id, selected_chat) = match self.accounts.get_selected_account() {
            Some(id) => {
                proof {
                    assert(self.accounts.has_account(id));
                    assert(self.account_states.contains_key(id));
                }
                let st = self.account_states.get(id).unwrap();
                (st.selected_chat_id, clone_opt_chat(&st.selected_chat))
            },
            None => (None, None),
        };
        SharedState { accounts, errors, selected_account, selected_chat_id, selected_chat }
    }

    /// The projection snapshot; what `to_response` builds.
    pub fn get_state(&self) -> (r: SharedState)
        requires
            self.wf(),
        ensures
            is_snapshot(*self, r),
    {
        self.to_response()
    }

    /// The id of the selected account, if one is selected.
    pub fn get_selected_account_id(&self) -> (r: Option<u32>)
        ensures
            r == self.accounts.selected,
    {
        self.accounts.get_selected_account()
    }

    /// The record of the selected account, if one is selected.
    pub fn get_selected_account_state(&self) -> (r: Option<&AccountState>)
        requires
            self.wf(),
        ensures
            match r {
                Some(st) => self.accounts.selected matches Some(id) && *st == self.state_of(id),
                None => self.accounts.selected is None,
            },
    {
        match self.accounts.get_selected_account() {
            Some(id) => {
                proof {
                    assert(self.accounts.has_account(id));
                    assert(self.account_states.contains_key(id));
                }
                Some(self.account_states.get(id).unwrap())
            },
            None => None,
        }
    }

    /// The windowed chat list of the selected account. Fails only when no
    /// account is selected.
    pub fn load_chat_list(&self, range: Option<(usize, usize)>) -> (r: Result<ChatList, String>)
        requires
            self.wf(),
        ensures
            r is Ok <==> self.accounts.selected is Some,
            r matches Ok(cl) ==> {
                let chats = self.accounts.spec_account(self.accounts.selected->Some_0).chats@;
                &&& cl.len == chats.len()
                &&& cl.range == spec_window_bounds(range, chats.len() as usize)
                &&& cl.chats@ == spec_window_chats(chats, range)
            },
            r matches Err(e) ==> e@ == spec_fail_no_selected_account(),
    {
        match self.accounts.get_selected_account() {
            Some(id) => {
                proof {
                    assert(self.accounts.has_account(id));
                }
                let a = self.accounts.accounts.get(id).unwrap();
                Ok(chat_window(&a.chats, range))
            },
            None => Err(fail_no_selected_account()),
        }
    }

    /// The windowed message list of the selected account's selected chat.
    /// Fails when no account is selected or the account has no selected
    /// chat.
    pub fn load_message_list(&self, range: Option<(usize, usize)>) -> (r: Result<
        MessageList,
        String,
    >)
        requires
            self.wf(),
        ensures
            r is Ok <==> self.accounts.selected is Some && self.spec_selected_chat_id() is Some,
            r matches Ok(ml) ==> {
                let account = self.accounts.spec_account(self.accounts.selected->Some_0);
                let chat_id = self.spec_selected_chat_id()->Some_0;
                let msgs = account.spec_chat(chat_id).messages@;
                &&& ml.chat_id == chat_id
                &&& ml.range == spec_window_bounds(range, msgs.len() as usize)
                &&& ml.items@ == spec_item_index(msgs)
                &&& ml.messages@ == spec_window_messages(msgs, range)
            },
            r matches Err(e) ==> (e@ == spec_fail_no_selected_account() || e@
                == spec_fail_no_selected_chat()),
            r is Err && self.accounts.selected is None ==> (r matches Err(e) && e@
                == spec_fail_no_selected_account()),
    {
        match self.accounts.get_selected_account() {
            Some(id) => {
                proof {
                    assert(self.accounts.has_account(id));
                    assert(self.account_states.contains_key(id));
                }
                let st = self.account_states.get(id).unwrap();
                match st.selected_chat_id {
                    Some(chat_id) => {
                        proof {
                            assert(state_ok(self.state_of(id), self.accounts.spec_account(id)));
                        }
                        let a = self.accounts.accounts.get(id).unwrap();
                        let i = a.chat_position(chat_id).unwrap();
                        Ok(message_window(chat_id, &a.chats[i].messages, range))
                    },
                    None => Err(fail_no_selected_chat()),
                }
            },
            None => Err(fail_no_selected_account()),
        }
    }
}

/// Only the account's login lifecycle moved: the backend, the errors, the
/// other records, and the account's chat selection are as before.
pub open spec fn only_login_changed(l0: LocalState, l1: LocalState, account: u32) -> bool {
    &&& l1.accounts == l0.accounts
    &&& l1.errors == l0.errors
    &&& l1.account_states.wf()
    &&& (forall|k: u32|
        k != account ==> l1.account_states.spec_get(k) == l0.account_states.spec_get(k))
    &&& (forall|k: u32| l1.account_states.contains_key(k) == l0.account_states.contains_key(k))
    &&& l1.state_of(account).selected_chat_id == l0.state_of(account).selected_chat_id
    &&& l1.state_of(account).selected_chat == l0.state_of(account).selected_chat
}

/// The login lifecycle moved as a progress value dictates: zero to the
/// failure outcome with the given reason, the full scale to success, any
/// other value to a step — except that a terminal record stays as it is:
/// only removing the account leaves `Success` or `Error`.
pub open spec fn login_progress_applied(
    l0: LocalState,
    l1: LocalState,
    account: u32,
    progress: usize,
    fail: Seq<char>,
) -> bool {
    &&& only_login_changed(l0, l1, account)
    &&& {
        let cur = l0.state_of(account).logged_in;
        let new = l1.state_of(account).logged_in;
        if login_terminal(cur) {
            new == cur
        } else if progress == 0 {
            new matches Login::Error(s) && s@ == fail
        } else if progress == 1000 {
            new == Login::Success
        } else {
            new == Login::Progress(progress)
        }
    }
}

/// One chat summary of one account was replaced by the given value;
/// everything else in the backend's account data is as before.
pub open spec fn chat_summary_updated(
    l0: LocalState,
    l1: LocalState,
    account_id: u32,
    chat_id: u32,
    s1: ChatState,
) -> bool {
    let a0 = l0.accounts.spec_account(account_id);
    let a1 = l1.accounts.spec_account(account_id);
    let i = chat_index_of(a0.chats@, chat_id);
    &&& (forall|k: u32|
        k != account_id ==> l1.accounts.accounts.spec_get(k) == l0.accounts.accounts.spec_get(k))
    &&& (forall|k: u32| l1.accounts.has_account(k) == l0.accounts.has_account(k))
    &&& a1.email == a0.email
    &&& a1.display_name == a0.display_name
    &&& a1.profile_image == a0.profile_image
    &&& a1.chats@.len() == a0.chats@.len()
    &&& (forall|j: int| 0 <= j < a0.chats@.len() && j != i ==> a1.chats@[j] == a0.chats@[j])
    &&& a1.chats@[i].messages == a0.chats@[i].messages
    &&& a1.chats@[i].summary == s1
}

/// What a chat-visibility request leaves behind, for every outcome: an
/// unknown account changes nothing, an unknown chat costs only the backend
/// call, and otherwise the summary carries the requested visibility and
/// the selected chat's message list confirms the operation.
pub open spec fn visibility_outcome(
    l0: LocalState,
    l1: LocalState,
    r: Result<Response, String>,
    account_id: u32,
    chat_id: u32,
    v: ChatVisibility,
) -> bool {
    let applied = l0.has_account(account_id) && l0.accounts.spec_account(account_id).has_chat(
        chat_id,
    );
    &&& l1.wf()
    &&& l1.account_states == l0.account_states
    &&& l1.errors == l0.errors
    &&& l1.accounts.selected == l0.accounts.selected
    &&& l1.accounts.next_id == l0.accounts.next_id
    &&& l1.accounts.next_msg_id == l0.accounts.next_msg_id
    &&& (!l0.has_account(account_id) ==> l1 == l0 && (r matches Err(e) && e@
        == spec_fail_invalid_account()))
    &&& (l0.has_account(account_id) ==> l1.accounts.calls == bumped(l0.accounts.calls))
    &&& (l0.has_account(account_id) && !l0.accounts.spec_account(account_id).has_chat(chat_id)
        ==> l1.accounts.accounts == l0.accounts.accounts && (r matches Err(e) && e@
        == spec_fail_invalid_chat()))
    &&& (applied ==> chat_summary_updated(
        l0,
        l1,
        account_id,
        chat_id,
        ChatState {
            is_pinned: v is Pinned,
            is_archived: v is Archived,
            ..l0.accounts.spec_account(account_id).spec_chat(chat_id).summary
        },
    ))
    &&& (r is Ok <==> applied && l0.state_of(account_id).selected_chat_id is Some)
    &&& (applied && l0.state_of(account_id).selected_chat_id is None ==> (r matches Err(e) && e@
        == spec_fail_no_selected_chat()))
    &&& (r matches Ok(resp) ==> resp matches Response::MessageList {
        chat_id: c,
        range,
        items,
        messages,
    } && {
        let sel = l0.state_of(account_id).selected_chat_id->Some_0;
        let msgs = l0.accounts.spec_account(account_id).spec_chat(sel).messages@;
        &&& c == sel
        &&& range == spec_window_bounds(None::<(usize, usize)>, msgs.len() as usize)
        &&& items@ == spec_item_index(msgs)
        &&& messages@ == spec_window_messages(msgs, None::<(usize, usize)>)
    })
}


/// Well-formedness carries over to a state from which one account was
/// torn down on both sides, everything else untouched.
pub proof fn lemma_wf_after_removal(l0: LocalState, l1: LocalState, id: u32)
    requires
        l0.wf(),
        l1.account_states.wf(),
        l1.accounts.wf(),
        !l1.account_states.contains_key(id),
        !l1.accounts.has_account(id),
        forall|k: u32| k != id ==> l1.account_states.spec_get(k) == l0.account_states.spec_get(k),
        forall|k: u32|
            k != id ==> l1.account_states.contains_key(k) == l0.account_states.contains_key(k),
        forall|k: u32|
            k != id ==> l1.accounts.accounts.spec_get(k) == l0.accounts.accounts.spec_get(k),
        forall|k: u32| k != id ==> l1.accounts.has_account(k) == l0.accounts.has_account(k),
    ensures
        l1.wf(),
{
    assert forall|k: u32| #[trigger] l1.accounts.has_account(k)
        implies l1.account_states.contains_key(k) by {
        assert(k != id);
        assert(l0.accounts.has_account(k));
        assert(l0.account_states.contains_key(k));
    }
    assert forall|k: u32| #[trigger] l1.account_states.contains_key(k)
        implies l1.accounts.has_account(k) && state_ok(
        l1.state_of(k),
        l1.accounts.spec_account(k),
    ) by {
        assert(k != id);
        assert(l0.account_states.contains_key(k));
        assert(state_ok(l0.state_of(k), l0.accounts.spec_account(k)));
    }
}

/// Well-formedness carries over to a state with the same records and the
/// same backend account data, whatever else of the backend moved.
pub proof fn lemma_wf_preserved(l0: LocalState, l1: LocalState)
    requires
        l0.wf(),
        l1.account_states == l0.account_states,
        l1.accounts.wf(),
        l1.accounts.accounts == l0.accounts.accounts,
    ensures
        l1.wf(),
{
    assert forall|k: u32| #[trigger] l1.accounts.has_account(k)
        implies l1.account_states.contains_key(k) by {
        assert(l0.accounts.has_account(k));
    }
    assert forall|k: u32| #[trigger] l1.account_states.contains_key(k)
        implies l1.accounts.has_account(k) && state_ok(
        l1.state_of(k),
        l1.accounts.spec_account(k),
    ) by {
        assert(l0.account_states.contains_key(k));
        assert(state_ok(l0.state_of(k), l0.accounts.spec_account(k)));
    }
}

impl LocalState {
    /// Moves the account's login lifecycle towards the target; a terminal
    /// record stays as it is. Nothing else moves.
    fn advance_login(&mut self, id: u32, target: Login)
        requires
            old(self).wf(),
            old(self).has_account(id),
        ensures
            final(self).wf(),
            only_login_changed(*old(self), *final(self), id),
            final(self).state_of(id).logged_in == spec_login_after(
                old(self).state_of(id).logged_in,
                target,
            ),
    {
        let st = self.account_states.get_mut(id).unwrap();
        let terminal: bool = match &st.logged_in {
            Login::Success => true,
            Login::Error(_) => true,
            Login::Progress(_) => false,
            Login::Not => false,
        };
        if !terminal {
            st.logged_in = target;
        }
    }

    /// Creates a fresh backend account with a fresh engine record and
    /// hands back its id.
    pub fn add_account(&mut self) -> (id: u32)
        requires
            old(self).wf(),
            old(self).accounts.next_id < u32::MAX,
        ensures
            final(self).wf(),
            id == old(self).accounts.next_id,
            !old(self).has_account(id),
            final(self).has_account(id),
            final(self).accounts.has_account(id),
            final(self).state_of(id) == (AccountState {
                logged_in: Login::Not,
                selected_chat_id: None,
                selected_chat: None,
            }),
            forall|k: u32| k != id ==> final(self).account_states.spec_get(k) == old(
                self,
            ).account_states.spec_get(k),
            forall|k: u32| k != id ==> final(self).accounts.accounts.spec_get(k) == old(
                self,
            ).accounts.accounts.spec_get(k),
            forall|k: u32| k != id ==> final(self).has_account(k) == old(self).has_account(k),
            final(self).accounts.selected == old(self).accounts.selected,
            final(self).errors == old(self).errors,
            final(self).accounts.calls == bumped(old(self).accounts.calls),
            final(self).accounts.next_msg_id == old(self).accounts.next_msg_id,
    {
        let id = self.accounts.add_account();
        self.account_states.insert(id, AccountState::new());
        id
    }

    /// Attempts to log the account in; the network's verdict is handed in
    /// as `ok`. On failure the half-initialized account is torn down on
    /// both sides and the reason recorded: a failed login leaves no
    /// account behind.
    pub fn login(&mut self, id: u32, email: &str, password: &str, ok: bool) -> (r: Result<
        (),
        String,
    >)
        requires
            old(self).wf(),
            old(self).has_account(id),
        ensures
            final(self).wf(),
            r is Ok,
            final(self).accounts.next_id == old(self).accounts.next_id,
            final(self).accounts.next_msg_id == old(self).accounts.next_msg_id,
            ok ==> {
                &&& final(self).account_states == old(self).account_states
                &&& final(self).errors == old(self).errors
                &&& final(self).accounts.selected == old(self).accounts.selected
                &&& final(self).accounts.calls == bumped(old(self).accounts.calls)
                &&& (forall|k: u32|
                    final(self).accounts.has_account(k) == old(self).accounts.has_account(k))
                &&& (forall|k: u32|
                    k != id ==> final(self).accounts.accounts.spec_get(k) == old(
                        self,
                    ).accounts.accounts.spec_get(k))
                &&& final(self).accounts.spec_account(id).email@ == email@
                &&& final(self).accounts.spec_account(id).display_name == old(
                    self,
                ).accounts.spec_account(id).display_name
                &&& final(self).accounts.spec_account(id).profile_image == old(
                    self,
                ).accounts.spec_account(id).profile_image
                &&& final(self).accounts.spec_account(id).chats == old(self).accounts.spec_account(
                    id,
                ).chats
            },
            !ok ==> {
                &&& !final(self).has_account(id)
                &&& !final(self).accounts.has_account(id)
                &&& (forall|k: u32|
                    k != id ==> final(self).account_states.spec_get(k) == old(
                        self,
                    ).account_states.spec_get(k))
                &&& (forall|k: u32|
                    k != id ==> final(self).accounts.accounts.spec_get(k) == old(
                        self,
                    ).accounts.accounts.spec_get(k))
                &&& (forall|k: u32| k != id ==> final(self).has_account(k) == old(self).has_account(k))
                &&& final(self).errors@.len() == old(self).errors@.len() + 1
                &&& final(self).errors@.subrange(0, old(self).errors@.len() as int) == old(
                    self,
                ).errors@
                &&& final(self).errors@.last()@ == spec_fail_login()
                &&& final(self).accounts.selected == (if old(self).accounts.selected == Some(id) {
                    None::<u32>
                } else {
                    old(self).accounts.selected
                })
            },
    {
        proof {
            assert(old(self).accounts.has_account(id));
        }
        let res = self.accounts.login(id, email, password, ok);
        match res {
            Ok(()) => {
                proof {
                    assert forall|k: u32| #[trigger] self.accounts.has_account(k)
                        implies self.account_states.contains_key(k) by {
                        assert(old(self).accounts.has_account(k));
                    }
                    assert(self.wf());
                }
                Ok(())
            },
            Err(e) => {
                self.errors.push(e);
                self.account_states.remove(id);
                let rr = self.accounts.remove_account(id);
                match rr {
                    Ok(()) => {},
                    Err(_) => {
                        proof {
                            assert(false);
                        }
                    },
                }
                proof {
                    assert(final(self).errors@.subrange(0, old(self).errors@.len() as int) =~= old(
                        self,
                    ).errors@);
                }
                proof {
                    lemma_wf_after_removal(*old(self), *self, id);
                }
                Ok(())
            },
        }
    }

    /// Attempts to import an account backup; the outcome of the disk and
    /// network work is handed in as `ok`. On failure the half-initialized
    /// account is torn down on both sides and the reason recorded.
    pub fn import(&mut self, id: u32, path: &str, ok: bool) -> (r: Result<(), String>)
        requires
            old(self).wf(),
            old(self).has_account(id),
        ensures
            final(self).wf(),
            r is Ok,
            final(self).accounts.next_id == old(self).accounts.next_id,
            final(self).accounts.next_msg_id == old(self).accounts.next_msg_id,
            ok ==> {
                &&& final(self).account_states == old(self).account_states
                &&& final(self).errors == old(self).errors
                &&& final(self).accounts.accounts == old(self).accounts.accounts
                &&& final(self).accounts.selected == old(self).accounts.selected
                &&& final(self).accounts.calls == bumped(old(self).accounts.calls)
            },
            !ok ==> {
                &&& !final(self).has_account(id)
                &&& !final(self).accounts.has_account(id)
                &&& (forall|k: u32|
                    k != id ==> final(self).account_states.spec_get(k) == old(
                        self,
                    ).account_states.spec_get(k))
                &&& (forall|k: u32|
                    k != id ==> final(self).accounts.accounts.spec_get(k) == old(
                        self,
                    ).accounts.accounts.spec_get(k))
                &&& (forall|k: u32| k != id ==> final(self).has_account(k) == old(self).has_account(k))
                &&& final(self).errors@.len() == old(self).errors@.len() + 1
                &&& final(self).errors@.subrange(0, old(self).errors@.len() as int) == old(
                    self,
                ).errors@
                &&& final(self).errors@.last()@ == spec_fail_import()
                &&& final(self).accounts.selected == (if old(self).accounts.selected == Some(id) {
                    None::<u32>
                } else {
                    old(self).accounts.selected
                })
            },
    {
        proof {
            assert(old(self).accounts.has_account(id));
        }
        let res = self.accounts.import(id, path, ok);
        match res {
            Ok(()) => {
                proof {
                    assert forall|k: u32| #[trigger] self.accounts.has_account(k)
                        implies self.account_states.contains_key(k) by {
                        assert(old(self).accounts.has_account(k));
                    }
                    assert(self.wf());
                }
                Ok(())
            },
            Err(e) => {
                self.errors.push(e);
                self.account_states.remove(id);
                let rr = self.accounts.remove_account(id);
                match rr {
                    Ok(()) => {},
                    Err(_) => {
                        proof {
                            assert(false);
                        }
                    },
                }
                proof {
                    assert(final(self).errors@.subrange(0, old(self).errors@.len() as int) =~= old(
                        self,
                    ).errors@);
                }
                proof {
                    lemma_wf_after_removal(*old(self), *self, id);
                }
                Ok(())
            },
        }
    }

    /// Makes the account the selected one and reports its remembered chat
    /// selection. Fails if the account is unknown.
    pub fn select_account(&mut self, account_id: u32) -> (r: Result<AccountInfo, String>)
        requires
            old(self).wf(),
        ensures
            final(self).wf(),
            final(self).account_states == old(self).account_states,
            final(self).errors == old(self).errors,
            final(self).accounts.accounts == old(self).accounts.accounts,
            final(self).accounts.next_id == old(self).accounts.next_id,
            final(self).accounts.next_msg_id == old(self).accounts.next_msg_id,
            final(self).accounts.calls == bumped(old(self).accounts.calls),
            r is Ok <==> old(self).has_account(account_id),
            r is Ok ==> final(self).accounts.selected == Some(account_id),
            r is Err ==> final(self).accounts.selected == old(self).accounts.selected,
            r matches Ok(info) ==> info.account == account_id && info.chat_id == old(
                self,
            ).state_of(account_id).selected_chat_id && info.chat == old(self).state_of(
                account_id,
            ).selected_chat,
            r matches Err(e) ==> e@ == spec_fail_invalid_account(),
    {
        let sel = self.accounts.select_account(account_id);
        proof {
            lemma_wf_preserved(*old(self), *self);
        }
        match sel {
            Ok(()) => {
                proof {
                    assert(self.accounts.has_account(account_id));
                    assert(self.account_states.contains_key(account_id));
                }
                let st = self.account_states.get(account_id).unwrap();
                Ok(
                    AccountInfo {
                        account: account_id,
                        chat_id: st.selected_chat_id,
                        chat: clone_opt_chat(&st.selected_chat),
                    },
                )
            },
            Err(e) => Err(e),
        }
    }

    /// Remembers the chat as the account's selection, denormalizes its
    /// summary, and hands back the chat's full message window. Fails if
    /// the account or the chat is unknown; nothing moves then.
    pub fn select_chat(&mut self, account_id: u32, chat_id: u32) -> (r: Result<
        MessageList,
        String,
    >)
        requires
            old(self).wf(),
        ensures
            final(self).wf(),
            final(self).accounts == old(self).accounts,
            final(self).errors == old(self).errors,
            r is Ok <==> old(self).has_account(account_id) && old(self).accounts.spec_account(
                account_id,
            ).has_chat(chat_id),
            r is Err ==> final(self).account_states == old(self).account_states,
            r is Ok ==> {
                &&& final(self).account_states.wf()
                &&& (forall|k: u32|
                    k != account_id ==> final(self).account_states.spec_get(k) == old(
                        self,
                    ).account_states.spec_get(k))
                &&& (forall|k: u32|
                    final(self).account_states.contains_key(k) == old(
                        self,
                    ).account_states.contains_key(k))
                &&& final(self).state_of(account_id).selected_chat_id == Some(chat_id)
                &&& final(self).state_of(account_id).selected_chat == Some(
                    old(self).accounts.spec_account(account_id).spec_chat(chat_id).summary,
                )
                &&& final(self).state_of(account_id).logged_in == old(self).state_of(
                    account_id,
                ).logged_in
            },
            r matches Ok(ml) ==> is_message_window(
                ml,
                chat_id,
                old(self).accounts.spec_account(account_id).spec_chat(chat_id).messages@,
                None::<(usize, usize)>,
            ),
    {
        if !self.account_states.contains(account_id) {
            return Err(fail_invalid_account());
        }
        proof {
            assert(self.accounts.has_account(account_id));
        }
        let a = self.accounts.accounts.get(account_id).unwrap();
        match a.chat_position(chat_id) {
            Some(i) => {
                let summary = a.chats[i].summary.clone();
                let ml = message_window(chat_id, &a.chats[i].messages, None);
                let st = self.account_states.get_mut(account_id).unwrap();
                st.selected_chat_id = Some(chat_id);
                st.selected_chat = Some(summary);
                Ok(ml)
            },
            None => Err(crate::backend::fail_invalid_chat()),
        }
    }

    /// Applies a visibility change and confirms it with the selected
    /// chat's message window.
    fn visibility_request(&mut self, account_id: u32, chat_id: u32, visibility: ChatVisibility)
        -> (r: Result<Response, String>)
        requires
            old(self).wf(),
        ensures
            visibility_outcome(*old(self), *final(self), r, account_id, chat_id, visibility),
    {
        if !self.account_states.contains(account_id) {
            return Err(fail_invalid_account());
        }
        proof {
            assert(self.accounts.has_account(account_id));
        }
        let ghost l0 = *self;
        let vres = self.accounts.set_chat_visibility(account_id, chat_id, visibility);
        match vres {
            Err(e) => {
                proof {
                    assert forall|k: u32| #[trigger] self.accounts.has_account(k)
                        implies self.account_states.contains_key(k) by {
                        assert(l0.accounts.has_account(k));
                    }
                }
                Err(e)
            },
            Ok(()) => {
                proof {
                    let chats0 = l0.accounts.spec_account(account_id).chats@;
                    let chats1 = self.accounts.spec_account(account_id).chats@;
                    assert forall|j: int| 0 <= j < chats0.len() implies chats1[j].summary.id
                        == chats0[j].summary.id by {
                        if j != chat_index_of(chats0, chat_id) {
                            assert(chats1[j] == chats0[j]);
                        }
                    }
                    crate::backend::lemma_same_ids(chats0, chats1);
                    assert(self.wf());
                }
                let st = self.account_states.get(account_id).unwrap();
                match st.selected_chat_id {
                    Some(sel) => {
                        let a = self.accounts.accounts.get(account_id).unwrap();
                        let i = a.chat_position(sel).unwrap();
                        proof {
                            let chats0 = l0.accounts.spec_account(account_id).chats@;
                            assert(chat_index_of(chats0, sel) == i as int);
                            if i as int != chat_index_of(chats0, chat_id) {
                                assert(a.chats@[i as int] == chats0[i as int]);
                            }
                        }
                        let ml = message_window(sel, &a.chats[i].messages, None);
                        Ok(
                            Response::MessageList {
                                chat_id: ml.chat_id,
                                range: ml.range,
                                items: ml.items,
                                messages: ml.messages,
                            },
                        )
                    },
                    None => Err(fail_no_selected_chat()),
                }
            },
        }
    }

    /// Pins the chat to the top of the account's chat list and confirms
    /// with the selected chat's message window.
    pub fn pin_chat(&mut self, account_id: u32, chat_id: u32) -> (r: Result<Response, String>)
        requires
            old(self).wf(),
        ensures
            visibility_outcome(
                *old(self),
                *final(self),
                r,
                account_id,
                chat_id,
                ChatVisibility::Pinned,
            ),
    {
        self.visibility_request(account_id, chat_id, ChatVisibility::Pinned)
    }

    /// Unpins the chat and confirms with the selected chat's message
    /// window.
    pub fn unpin_chat(&mut self, account_id: u32, chat_id: u32) -> (r: Result<Response, String>)
        requires
            old(self).wf(),
        ensures
            visibility_outcome(
                *old(self),
                *final(self),
                r,
                account_id,
                chat_id,
                ChatVisibility::Normal,
            ),
    {
        self.visibility_request(account_id, chat_id, ChatVisibility::Normal)
    }

    /// Archives the chat and confirms with the selected chat's message
    /// window.
    pub fn archive_chat(&mut self, account_id: u32, chat_id: u32) -> (r: Result<Response, String>)
        requires
            old(self).wf(),
        ensures
            visibility_outcome(
                *old(self),
                *final(self),
                r,
                account_id,
                chat_id,
                ChatVisibility::Archived,
            ),
    {
        self.visibility_request(account_id, chat_id, ChatVisibility::Archived)
    }

    /// Takes the chat out of the archive and confirms with the selected
    /// chat's message window.
    pub fn unarchive_chat(&mut self, account_id: u32, chat_id: u32) -> (r: Result<
        Response,
        String,
    >)
        requires
            old(self).wf(),
        ensures
            visibility_outcome(
                *old(self),
                *final(self),
                r,
                account_id,
                chat_id,
                ChatVisibility::Normal,
            ),
    {
        self.visibility_request(account_id, chat_id, ChatVisibility::Normal)
    }
}


impl LocalState {
    /// Accepts a contact request: the chat stops being a request and can
    /// be written to.
    pub fn accept_contact_request(&mut self, account_id: u32, chat_id: u32) -> (r: Result<
        (),
        String,
    >)
        requires
            old(self).wf(),
        ensures
            final(self).wf(),
            final(self).account_states == old(self).account_states,
            final(self).errors == old(self).errors,
            final(self).accounts.selected == old(self).accounts.selected,
            final(self).accounts.next_id == old(self).accounts.next_id,
            final(self).accounts.next_msg_id == old(self).accounts.next_msg_id,
            r is Ok <==> old(self).has_account(account_id) && old(self).accounts.spec_account(
                account_id,
            ).has_chat(chat_id),
            !old(self).has_account(account_id) ==> *final(self) == *old(self) && (r matches Err(e)
                && e@ == spec_fail_invalid_account()),
            old(self).has_account(account_id) ==> final(self).accounts.calls == bumped(
                old(self).accounts.calls,
            ),
            old(self).has_account(account_id) && !old(self).accounts.spec_account(
                account_id,
            ).has_chat(chat_id) ==> final(self).accounts.accounts == old(self).accounts.accounts
                && (r matches Err(e) && e@ == spec_fail_invalid_chat()),
            r is Ok ==> chat_summary_updated(
                *old(self),
                *final(self),
                account_id,
                chat_id,
                ChatState {
                    is_contact_request: false,
                    can_send: true,
                    ..old(self).accounts.spec_account(account_id).spec_chat(chat_id).summary
                },
            ),
    {
        if !self.account_states.contains(account_id) {
            return Err(fail_invalid_account());
        }
        proof {
            assert(self.accounts.has_account(account_id));
        }
        let ghost l0 = *self;
        let res = self.accounts.accept_contact_request(account_id, chat_id);
        proof {
            if res is Ok {
                let chats0 = l0.accounts.spec_account(account_id).chats@;
                let chats1 = self.accounts.spec_account(account_id).chats@;
                assert forall|j: int| 0 <= j < chats0.len() implies chats1[j].summary.id
                    == chats0[j].summary.id by {
                    if j != chat_index_of(chats0, chat_id) {
                        assert(chats1[j] == chats0[j]);
                    }
                }
                crate::backend::lemma_same_ids(chats0, chats1);
                assert(self.wf());
            } else {
                lemma_wf_preserved(l0, *self);
            }
        }
        res
    }

    /// Blocks the chat's contact: the chat leaves the account's chat
    /// collection, and a chat selection that pointed at it is cleared so
    /// that no record names a chat the backend no longer has.
    pub fn block_contact(&mut self, account_id: u32, chat_id: u32) -> (r: Result<(), String>)
        requires
            old(self).wf(),
        ensures
            final(self).wf(),
            final(self).errors == old(self).errors,
            final(self).accounts.selected == old(self).accounts.selected,
            final(self).accounts.next_id == old(self).accounts.next_id,
            final(self).accounts.next_msg_id == old(self).accounts.next_msg_id,
            r is Ok <==> old(self).has_account(account_id) && old(self).accounts.spec_account(
                account_id,
            ).has_chat(chat_id),
            !old(self).has_account(account_id) ==> *final(self) == *old(self) && (r matches Err(e)
                && e@ == spec_fail_invalid_account()),
            old(self).has_account(account_id) ==> final(self).accounts.calls == bumped(
                old(self).accounts.calls,
            ),
            old(self).has_account(account_id) && !old(self).accounts.spec_account(
                account_id,
            ).has_chat(chat_id) ==> final(self).accounts.accounts == old(self).accounts.accounts
                && final(self).account_states == old(self).account_states && (r matches Err(e)
                && e@ == spec_fail_invalid_chat()),
            r is Ok ==> {
                let a0 = old(self).accounts.spec_account(account_id);
                let a1 = final(self).accounts.spec_account(account_id);
                &&& (forall|k: u32|
                    k != account_id ==> final(self).accounts.accounts.spec_get(k) == old(
                        self,
                    ).accounts.accounts.spec_get(k))
                &&& (forall|k: u32|
                    final(self).accounts.has_account(k) == old(self).accounts.has_account(k))
                &&& (forall|k: u32|
                    k != account_id ==> final(self).account_states.spec_get(k) == old(
                        self,
                    ).account_states.spec_get(k))
                &&& (forall|k: u32|
                    final(self).account_states.contains_key(k) == old(
                        self,
                    ).account_states.contains_key(k))
                &&& a1.email == a0.email
                &&& a1.display_name == a0.display_name
                &&& a1.profile_image == a0.profile_image
                &&& a1.chats@ == a0.chats@.remove(chat_index_of(a0.chats@, chat_id))
                &&& final(self).state_of(account_id).logged_in == old(self).state_of(
                    account_id,
                ).logged_in
                &&& (old(self).state_of(account_id).selected_chat_id == Some(chat_id)
                    ==> (final(self).state_of(account_id).selected_chat_id is None)
                        && (final(self).state_of(account_id).selected_chat is None))
                &&& (old(self).state_of(account_id).selected_chat_id != Some(chat_id)
                    ==> final(self).state_of(account_id) == old(self).state_of(account_id))
            },
    {
        if !self.account_states.contains(account_id) {
            return Err(fail_invalid_account());
        }
        proof {
            assert(self.accounts.has_account(account_id));
        }
        let ghost l0 = *self;
        let res = self.accounts.block_contact(account_id, chat_id);
        match res {
            Err(e) => {
                proof {
                    lemma_wf_preserved(l0, *self);
                }
                Err(e)
            },
            Ok(()) => {
                let st = self.account_states.get(account_id).unwrap();
                let clear: bool = match st.selected_chat_id {
                    Some(c) => c == chat_id,
                    None => false,
                };
                if clear {
                    let stm = self.account_states.get_mut(account_id).unwrap();
                    stm.selected_chat_id = None;
                    stm.selected_chat = None;
                }
                proof {
                    assert forall|k: u32| #[trigger] self.accounts.has_account(k)
                        implies self.account_states.contains_key(k) by {
                        assert(l0.accounts.has_account(k));
                        assert(l0.account_states.contains_key(k));
                    }
                    assert forall|k: u32| #[trigger] self.account_states.contains_key(k)
                        implies self.accounts.has_account(k) && state_ok(
                        self.state_of(k),
                        self.accounts.spec_account(k),
                    ) by {
                        assert(l0.account_states.contains_key(k));
                        assert(l0.accounts.has_account(k));
                        assert(state_ok(l0.state_of(k), l0.accounts.spec_account(k)));
                        if k == account_id {
                            let sel = self.state_of(k).selected_chat_id;
                            if sel is Some {
                                let c = sel->Some_0;
                                assert(c != chat_id);
                                assert(l0.accounts.spec_account(k).has_chat(c));
                            }
                        }
                    }
                    assert(self.wf());
                }
                Ok(())
            },
        }
    }

    /// Sends a plain text message to the selected account's selected chat;
    /// empty text is forwarded as-is.
    pub fn send_text_message(&mut self, text: String) -> (r: Result<(), String>)
        requires
            old(self).wf(),
            old(self).accounts.next_msg_id < u32::MAX,
        ensures
            final(self).wf(),
            final(self).account_states == old(self).account_states,
            final(self).errors == old(self).errors,
            final(self).accounts.selected == old(self).accounts.selected,
            final(self).accounts.next_id == old(self).accounts.next_id,
            r is Ok <==> old(self).accounts.selected is Some && old(
                self,
            ).spec_selected_chat_id() is Some,
            old(self).accounts.selected is None ==> *final(self) == *old(self) && (r matches Err(e)
                && e@ == spec_fail_no_account_selected()),
            old(self).accounts.selected is Some && old(self).spec_selected_chat_id() is None
                ==> *final(self) == *old(self) && (r matches Err(e) && e@
                == spec_fail_no_selected_chat()),
            r is Ok ==> {
                let id = old(self).accounts.selected->Some_0;
                let chat_id = old(self).spec_selected_chat_id()->Some_0;
                let chats0 = old(self).accounts.spec_account(id).chats@;
                let chats1 = final(self).accounts.spec_account(id).chats@;
                let i = chat_index_of(chats0, chat_id);
                &&& final(self).accounts.calls == bumped(old(self).accounts.calls)
                &&& final(self).accounts.next_msg_id == old(self).accounts.next_msg_id + 1
                &&& (forall|k: u32|
                    k != id ==> final(self).accounts.accounts.spec_get(k) == old(
                        self,
                    ).accounts.accounts.spec_get(k))
                &&& (forall|k: u32|
                    final(self).accounts.has_account(k) == old(self).accounts.has_account(k))
                &&& chats1.len() == chats0.len()
                &&& (forall|j: int| 0 <= j < chats0.len() && j != i ==> chats1[j] == chats0[j])
                &&& chats1[i].summary == chats0[i].summary
                &&& chats1[i].messages@ == chats0[i].messages@.push(chats1[i].messages@.last())
                &&& crate::backend::is_fresh_text_message(
                    chats1[i].messages@.last(),
                    old(self).accounts.next_msg_id,
                    text,
                )
            },
    {
        match self.accounts.get_selected_account() {
            Some(id) => {
                proof {
                    assert(self.accounts.has_account(id));
                    assert(self.account_states.contains_key(id));
                }
                let st = self.account_states.get(id).unwrap();
                match st.selected_chat_id {
                    Some(chat_id) => {
                        proof {
                            assert(state_ok(self.state_of(id), self.accounts.spec_account(id)));
                        }
                        let ghost l0 = *self;
                        let res = self.accounts.send_text(id, chat_id, text);
                        proof {
                            let chats0 = l0.accounts.spec_account(id).chats@;
                            let chats1 = self.accounts.spec_account(id).chats@;
                            assert forall|j: int| 0 <= j < chats0.len() implies chats1[j].summary.id
                                == chats0[j].summary.id by {
                                if j != chat_index_of(chats0, chat_id) {
                                    assert(chats1[j] == chats0[j]);
                                }
                            }
                            crate::backend::lemma_same_ids(chats0, chats1);
                            assert(self.wf());
                        }
                        match res {
                            Ok(_) => Ok(()),
                            Err(_) => {
                                proof {
                                    assert(false);
                                }
                                Err(fail_no_selected_chat())
                            },
                        }
                    },
                    None => Err(fail_no_selected_chat()),
                }
            },
            None => Err(fail_no_account_selected()),
        }
    }

    /// Sends a file message to the selected account's selected chat. The
    /// content type travels through its numeric tag, as the backend's wire
    /// format carries it.
    pub fn send_file_message(
        &mut self,
        typ: Viewtype,
        path: String,
        text: String,
        mime: Option<String>,
    ) -> (r: Result<(), String>)
        requires
            old(self).wf(),
            old(self).accounts.next_msg_id < u32::MAX,
        ensures
            final(self).wf(),
            final(self).account_states == old(self).account_states,
            final(self).errors == old(self).errors,
            final(self).accounts.selected == old(self).accounts.selected,
            final(self).accounts.next_id == old(self).accounts.next_id,
            r is Ok <==> old(self).accounts.selected is Some && old(
                self,
            ).spec_selected_chat_id() is Some,
            old(self).accounts.selected is None ==> *final(self) == *old(self) && (r matches Err(e)
                && e@ == spec_fail_no_account_selected()),
            old(self).accounts.selected is Some && old(self).spec_selected_chat_id() is None
                ==> *final(self) == *old(self) && (r matches Err(e) && e@
                == spec_fail_no_selected_chat()),
            r is Ok ==> {
                let id = old(self).accounts.selected->Some_0;
                let chat_id = old(self).spec_selected_chat_id()->Some_0;
                let chats0 = old(self).accounts.spec_account(id).chats@;
                let chats1 = final(self).accounts.spec_account(id).chats@;
                let i = chat_index_of(chats0, chat_id);
                &&& final(self).accounts.calls == bumped(old(self).accounts.calls)
                &&& final(self).accounts.next_msg_id == old(self).accounts.next_msg_id + 1
                &&& (forall|k: u32|
                    k != id ==> final(self).accounts.accounts.spec_get(k) == old(
                        self,
                    ).accounts.accounts.spec_get(k))
                &&& (forall|k: u32|
                    final(self).accounts.has_account(k) == old(self).accounts.has_account(k))
                &&& chats1.len() == chats0.len()
                &&& (forall|j: int| 0 <= j < chats0.len() && j != i ==> chats1[j] == chats0[j])
                &&& chats1[i].summary == chats0[i].summary
                &&& chats1[i].messages@ == chats0[i].messages@.push(chats1[i].messages@.last())
                &&& crate::backend::is_fresh_file_message(
                    chats1[i].messages@.last(),
                    old(self).accounts.next_msg_id,
                    typ,
                    path,
                    Some(text),
                )
            },
    {
        match self.accounts.get_selected_account() {
            Some(id) => {
                proof {
                    assert(self.accounts.has_account(id));
                    assert(self.account_states.contains_key(id));
                }
                let st = self.account_states.get(id).unwrap();
                match st.selected_chat_id {
                    Some(chat_id) => {
                        proof {
                            assert(state_ok(self.state_of(id), self.accounts.spec_account(id)));
                        }
                        let tag = typ.to_i32();
                        let typ2 = match Viewtype::from_i32(tag) {
                            Some(v) => v,
                            None => {
                                proof {
                                    assert(false);
                                }
                                typ
                            },
                        };
                        proof {
                            crate::types::lemma_viewtype_round_trip(typ);
                        }
                        let ghost l0 = *self;
                        let res = self.accounts.send_file(id, chat_id, typ2, path, Some(text));
                        proof {
                            let chats0 = l0.accounts.spec_account(id).chats@;
                            let chats1 = self.accounts.spec_account(id).chats@;
                            assert forall|j: int| 0 <= j < chats0.len() implies chats1[j].summary.id
                                == chats0[j].summary.id by {
                                if j != chat_index_of(chats0, chat_id) {
                                    assert(chats1[j] == chats0[j]);
                                }
                            }
                            crate::backend::lemma_same_ids(chats0, chats1);
                            assert(self.wf());
                        }
                        match res {
                            Ok(_) => Ok(()),
                            Err(_) => {
                                proof {
                                    assert(false);
                                }
                                Err(fail_no_selected_chat())
                            },
                        }
                    },
                    None => Err(fail_no_selected_chat()),
                }
            },
            None => Err(fail_no_account_selected()),
        }
    }

    /// Pokes the backend's connectivity management; never fails and never
    /// changes the projection.
    pub fn maybe_network(&self) -> (r: Result<(), String>)
        ensures
            r is Ok,
    {
        self.accounts.maybe_network();
        Ok(())
    }

    /// The full snapshot an account-detail request answers with: the
    /// projection, the account's whole chat list, and — if the account
    /// remembers a chat selection — that chat's message window.
    pub fn send_account_details(&self, id: u32) -> (r: Result<
        (SharedState, Option<ChatList>, Option<MessageList>),
        String,
    >)
        requires
            self.wf(),
            self.accounts.has_account(id),
        ensures
            r is Ok,
            r matches Ok(t) ==> {
                &&& is_snapshot(*self, t.0)
                &&& (t.1 matches Some(cl) && is_chat_window(
                    cl,
                    self.accounts.spec_account(id).chats@,
                    None::<(usize, usize)>,
                ))
                &&& (t.2 is Some <==> self.state_of(id).selected_chat_id is Some)
                &&& (t.2 matches Some(ml) ==> is_message_window(
                    ml,
                    self.state_of(id).selected_chat_id->Some_0,
                    self.accounts.spec_account(id).spec_chat(
                        self.state_of(id).selected_chat_id->Some_0,
                    ).messages@,
                    None::<(usize, usize)>,
                ))
            },
    {
        proof {
            assert(self.account_states.contains_key(id));
        }
        let resp = self.to_response();
        let a = self.accounts.accounts.get(id).unwrap();
        let cl = chat_window(&a.chats, None);
        let st = self.account_states.get(id).unwrap();
        let ml = match st.selected_chat_id {
            Some(sel) => {
                proof {
                    assert(state_ok(self.state_of(id), self.accounts.spec_account(id)));
                }
                let i = a.chat_position(sel).unwrap();
                Some(message_window(sel, &a.chats[i].messages, None))
            },
            None => None,
        };
        Ok((resp, Some(cl), ml))
    }

    /// Translates one raw backend event into at most one application
    /// event, updating the account's login lifecycle where the event
    /// dictates it; a terminal lifecycle record is never moved. Failing to
    /// load an incoming message's content fails this event's processing,
    /// nothing more.
    pub fn handle_event(&mut self, account: u32, event: RawEvent) -> (r: Result<
        Option<Event>,
        String,
    >)
        requires
            old(self).wf(),
            event_needs_account(event) ==> old(self).has_account(account),
        ensures
            final(self).wf(),
            match event {
                RawEvent::ConfigureProgress { progress } => r == Ok::<Option<Event>, String>(
                    Some(Event::Configure(spec_progress_of(progress))),
                ) && login_progress_applied(
                    *old(self),
                    *final(self),
                    account,
                    progress,
                    spec_fail_login(),
                ),
                RawEvent::ImexProgress { progress } => r == Ok::<Option<Event>, String>(
                    Some(Event::Imex(spec_progress_of(progress))),
                ) && login_progress_applied(
                    *old(self),
                    *final(self),
                    account,
                    progress,
                    spec_fail_import(),
                ),
                RawEvent::ImapConnected => r == Ok::<Option<Event>, String>(Some(Event::Connected)) && only_login_changed(
                    *old(self),
                    *final(self),
                    account,
                ) && final(self).state_of(account).logged_in == spec_login_after(
                    old(self).state_of(account).logged_in,
                    Login::Success,
                ),
                RawEvent::SmtpConnected => r == Ok::<Option<Event>, String>(Some(Event::Connected)) && only_login_changed(
                    *old(self),
                    *final(self),
                    account,
                ) && final(self).state_of(account).logged_in == spec_login_after(
                    old(self).state_of(account).logged_in,
                    Login::Success,
                ),
                RawEvent::IncomingMsg { chat_id, msg_id } => {
                    let a = old(self).accounts.spec_account(account);
                    &&& *final(self) == *old(self)
                    &&& (r is Ok <==> a.has_chat(chat_id) && (exists|i: int|
                        0 <= i < a.spec_chat(chat_id).messages@.len() && ((#[trigger] a.spec_chat(
                            chat_id,
                        ).messages@[i]) matches ChatMessage::Message(im) && im.id == msg_id)))
                    &&& (!a.has_chat(chat_id) ==> (r matches Err(e) && e@
                        == spec_fail_load_chat()))
                    &&& (a.has_chat(chat_id) && r is Err ==> (r matches Err(e) && (e@
                        == spec_fail_load_msg() || e@ == spec_fail_load_chat())))
                    &&& (r matches Ok(o) ==> o matches Some(ev) && ev matches
                        Event::MessageIncoming { chat_id: c, title, body } && c == chat_id && title
                        == a.spec_chat(chat_id).summary.name && (exists|i: int|
                        0 <= i < a.spec_chat(chat_id).messages@.len() && message_matches(
                            #[trigger] a.spec_chat(chat_id).messages@[i],
                            msg_id,
                            body@,
                        )))
                },
                RawEvent::MsgDelivered { chat_id } => *final(self) == *old(self) && r == Ok::<Option<Event>, String>(
                    Some(Event::MessagesChanged { chat_id }),
                ),
                RawEvent::MsgFailed { chat_id } => *final(self) == *old(self) && r == Ok::<Option<Event>, String>(
                    Some(Event::MessagesChanged { chat_id }),
                ),
                RawEvent::MsgsChanged { chat_id } => *final(self) == *old(self) && r == Ok::<Option<Event>, String>(
                    Some(Event::MessagesChanged { chat_id }),
                ),
                RawEvent::MsgRead { chat_id } => *final(self) == *old(self) && r == Ok::<Option<Event>, String>(
                    Some(Event::MessagesChanged { chat_id }),
                ),
                RawEvent::ChatModified { chat_id } => *final(self) == *old(self) && r == Ok::<Option<Event>, String>(
                    Some(Event::MessagesChanged { chat_id }),
                ),
                RawEvent::MsgsNoticed { chat_id } => *final(self) == *old(self) && r == Ok::<Option<Event>, String>(
                    Some(Event::MessagesChanged { chat_id }),
                ),
                RawEvent::Info(s) => *final(self) == *old(self) && r == Ok::<Option<Event>, String>(
                    Some(Event::Log(Log::Info(s))),
                ),
                RawEvent::Warning(s) => *final(self) == *old(self) && r == Ok::<Option<Event>, String>(
                    Some(Event::Log(Log::Warning(s))),
                ),
                RawEvent::Error(s) => *final(self) == *old(self) && r == Ok::<Option<Event>, String>(
                    Some(Event::Log(Log::Error(s))),
                ),
                RawEvent::ConnectivityChanged => *final(self) == *old(self) && r == Ok::<Option<Event>, String>(
                    None::<Event>,
                ),
                RawEvent::Other => *final(self) == *old(self) && r == Ok::<Option<Event>, String>(None::<Event>),
            },
    {
        match event {
            RawEvent::ConfigureProgress { progress } => {
                if progress == 0 {
                    self.advance_login(account, Login::Error(fail_login()));
                    Ok(Some(Event::Configure(Progress::Error)))
                } else {
                    let p = if progress == 1000 {
                        self.advance_login(account, Login::Success);
                        Progress::Success
                    } else {
                        self.advance_login(account, Login::Progress(progress));
                        Progress::Step(progress)
                    };
                    Ok(Some(Event::Configure(p)))
                }
            },
            RawEvent::ImexProgress { progress } => {
                if progress == 0 {
                    self.advance_login(account, Login::Error(fail_import()));
                    Ok(Some(Event::Imex(Progress::Error)))
                } else {
                    let p = if progress == 1000 {
                        self.advance_login(account, Login::Success);
                        Progress::Success
                    } else {
                        self.advance_login(account, Login::Progress(progress));
                        Progress::Step(progress)
                    };
                    Ok(Some(Event::Imex(p)))
                }
            },
            RawEvent::ImapConnected => {
                self.advance_login(account, Login::Success);
                Ok(Some(Event::Connected))
            },
            RawEvent::SmtpConnected => {
                self.advance_login(account, Login::Success);
                Ok(Some(Event::Connected))
            },
            RawEvent::IncomingMsg { chat_id, msg_id } => {
                proof {
                    assert(self.accounts.has_account(account));
                }
                let a = self.accounts.accounts.get(account).unwrap();
                match a.chat_position(chat_id) {
                    Some(i) => match message_text_in(&a.chats[i], msg_id) {
                        Some(body) => {
                            let title = a.chats[i].summary.name.clone();
                            Ok(Some(Event::MessageIncoming { chat_id, title, body }))
                        },
                        None => Err(fail_load_msg()),
                    },
                    None => Err(fail_load_chat()),
                }
            },
            RawEvent::MsgDelivered { chat_id } => Ok(Some(Event::MessagesChanged { chat_id })),
            RawEvent::MsgFailed { chat_id } => Ok(Some(Event::MessagesChanged { chat_id })),
            RawEvent::MsgsChanged { chat_id } => Ok(Some(Event::MessagesChanged { chat_id })),
            RawEvent::MsgRead { chat_id } => Ok(Some(Event::MessagesChanged { chat_id })),
            RawEvent::ChatModified { chat_id } => Ok(Some(Event::MessagesChanged { chat_id })),
            RawEvent::MsgsNoticed { chat_id } => Ok(Some(Event::MessagesChanged { chat_id })),
            RawEvent::Info(s) => Ok(Some(Event::Log(Log::Info(s)))),
            RawEvent::Warning(s) => Ok(Some(Event::Log(Log::Warning(s)))),
            RawEvent::Error(s) => Ok(Some(Event::Log(Log::Error(s)))),
            RawEvent::ConnectivityChanged => Ok(None),
            RawEvent::Other => Ok(None),
        }
    }
}

/// The message of an incoming-message event whose message could not be
/// loaded.
pub fn fail_load_msg() -> (r: String)
    ensures
        r@ == spec_fail_load_msg(),
{
    proof {
        reveal_strlit("failed to load msg");
    }
    "failed to load msg".to_owned()
}

pub open spec fn spec_fail_load_msg() -> Seq<char> {
    "failed to load msg"@
}

/// The message of an incoming-message event whose chat could not be
/// loaded.
pub fn fail_load_chat() -> (r: String)
    ensures
        r@ == spec_fail_load_chat(),
{
    proof {
        reveal_strlit("failed to load chat");
    }
    "failed to load chat".to_owned()
}

pub open spec fn spec_fail_load_chat() -> Seq<char> {
    "failed to load chat"@
}

/// The message of a load issued while no account is selected.
pub fn fail_no_selected_account() -> (r: String)
    ensures
        r@ == spec_fail_no_selected_account(),
{
    proof {
        reveal_strlit("no selected account");
    }
    "no selected account".to_owned()
}

pub open spec fn spec_fail_no_selected_account() -> Seq<char> {
    "no selected account"@
}

/// The message of a send issued while no account is selected.
pub fn fail_no_account_selected() -> (r: String)
    ensures
        r@ == spec_fail_no_account_selected(),
{
    proof {
        reveal_strlit("no account selected");
    }
    "no account selected".to_owned()
}

pub open spec fn spec_fail_no_account_selected() -> Seq<char> {
    "no account selected"@
}

/// The message of an operation that needs a selected chat while the
/// account has none.
pub fn fail_no_selected_chat() -> (r: String)
    ensures
        r@ == spec_fail_no_selected_chat(),
{
    proof {
        reveal_strlit("no selected chat");
    }
    "no selected chat".to_owned()
}

pub open spec fn spec_fail_no_selected_chat() -> Seq<char> {
    "no selected chat"@
}

} // verus!
