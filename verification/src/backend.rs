//! An in-memory model of the messaging backend: account lifecycle,
//! per-account chats and messages, and the selected-account register.
//!
//! The real backend runs network and disk I/O in a host program; the engine
//! in this crate is verified against this model, which doubles as the test
//! double for the engine's scenarios. Operations whose outcome the network
//! decides (login, import) take that outcome as an argument and state what
//! holds for either value. Every state-changing operation counts one backend
//! call, so that a caller can state that an operation issued none.

use vstd::prelude::*;

use crate::idmap::IdMap;
use crate::types::{ChatMessage, ChatState, InnerChatMessage, Viewtype};

verus! {

/// One chat held by the backend: its sidebar summary and its full
/// message history.
#[derive(Debug, PartialEq)]
pub struct ChatData {
    pub summary: ChatState,
    pub messages: Vec<ChatMessage>,
}

/// One account held by the backend: its configuration and its chats.
#[derive(Debug, PartialEq)]
pub struct BackendAccount {
    pub email: String,
    pub display_name: Option<String>,
    pub profile_image: Option<String>,
    pub chats: Vec<ChatData>,
}

/// Some chat in the sequence carries the id.
pub open spec fn chats_contain(chats: Seq<ChatData>, chat_id: u32) -> bool {
    exists|i: int| 0 <= i < chats.len() && chats[i].summary.id == chat_id
}

/// The position of the chat carrying the id.
pub open spec fn chat_index_of(chats: Seq<ChatData>, chat_id: u32) -> int {
    choose|i: int| 0 <= i < chats.len() && chats[i].summary.id == chat_id
}

/// No chat id occurs twice.
pub open spec fn chats_wf(chats: Seq<ChatData>) -> bool {
    forall|i: int, j: int|
        0 <= i < j < chats.len() ==> chats[i].summary.id != chats[j].summary.id
}

/// In a well-formed chat sequence, the chat at any position is the one
/// `chat_index_of` finds for its id.
pub proof fn lemma_chat_at_index(chats: Seq<ChatData>, i: int)
    requires
        chats_wf(chats),
        0 <= i < chats.len(),
    ensures
        chats_contain(chats, chats[i].summary.id),
        chat_index_of(chats, chats[i].summary.id) == i,
{
    assert(chats_contain(chats, chats[i].summary.id));
    let j = chat_index_of(chats, chats[i].summary.id);
    if i < j {
        assert(chats[i].summary.id != chats[j].summary.id);
    } else if j < i {
        assert(chats[j].summary.id != chats[i].summary.id);
    }
}

/// Two chat sequences whose summaries carry the same ids position for
/// position contain the same chat ids, at the same positions.
pub proof fn lemma_same_ids(c0: Seq<ChatData>, c1: Seq<ChatData>)
    requires
        chats_wf(c0),
        c1.len() == c0.len(),
        forall|j: int| 0 <= j < c0.len() ==> c1[j].summary.id == c0[j].summary.id,
    ensures
        chats_wf(c1),
        forall|cid: u32| #[trigger] chats_contain(c1, cid) == chats_contain(c0, cid),
        forall|cid: u32|
            #[trigger] chats_contain(c0, cid) ==> chat_index_of(c1, cid) == chat_index_of(c0, cid),
{
    assert forall|cid: u32| #[trigger] chats_contain(c1, cid) == chats_contain(c0, cid) by {
        if chats_contain(c0, cid) {
            let i = chat_index_of(c0, cid);
            assert(c1[i].summary.id == cid);
            assert(chats_contain(c1, cid));
        }
        if chats_contain(c1, cid) {
            let i = chat_index_of(c1, cid);
            assert(c0[i].summary.id == cid);
            assert(chats_contain(c0, cid));
        }
    }
    assert forall|cid: u32| #[trigger] chats_contain(c0, cid) implies chat_index_of(c1, cid)
        == chat_index_of(c0, cid) by {
        let i = chat_index_of(c0, cid);
        assert(c1[i].summary.id == cid);
        lemma_chat_at_index(c1, i);
    }
}

impl BackendAccount {
    /// Chat ids are unique within the account.
    pub open spec fn wf(self) -> bool {
        chats_wf(self.chats@)
    }

    pub open spec fn has_chat(self, chat_id: u32) -> bool {
        chats_contain(self.chats@, chat_id)
    }

    /// The chat carrying the id.
    pub open spec fn spec_chat(self, chat_id: u32) -> ChatData {
        self.chats@[chat_index_of(self.chats@, chat_id)]
    }

    /// An account as the backend creates it: unconfigured and without chats.
    pub fn empty() -> (r: Self)
        ensures
            r.email@ =~= Seq::<char>::empty(),
            r.display_name is None,
            r.profile_image is None,
            r.chats@ =~= Seq::<ChatData>::empty(),
            r.wf(),
    {
        BackendAccount {
            email: String::new(),
            display_name: None,
            profile_image: None,
            chats: Vec::new(),
        }
    }

    /// The position of the chat carrying the id, if any.
    pub fn chat_position(&self, chat_id: u32) -> (r: Option<usize>)
        requires
            self.wf(),
        ensures
            match r {
                Some(i) => i < self.chats@.len() && self.chats@[i as int].summary.id == chat_id
                    && chat_index_of(self.chats@, chat_id) == i && self.has_chat(chat_id),
                None => !self.has_chat(chat_id),
            },
    {
        let n = self.chats.len();
        let mut i: usize = 0;
        while i < n
            invariant
                self.wf(),
                n == self.chats@.len(),
                i <= n,
                forall|j: int| 0 <= j < i ==> self.chats@[j].summary.id != chat_id,
            decreases n - i,
        {
            if self.chats[i].summary.id == chat_id {
                proof {
                    lemma_chat_at_index(self.chats@, i as int);
                }
                return Some(i);
            }
            i += 1;
        }
        None
    }
}

/// The call counter after one more backend call.
pub open spec fn bumped(c: u64) -> u64 {
    if c < u64::MAX {
        (c + 1) as u64
    } else {
        c
    }
}

/// The message appended by a plain text send carries the fresh id, the
/// given body, and no attachment.
pub open spec fn is_fresh_text_message(m: ChatMessage, id: u32, text: String) -> bool {
    &&& m matches ChatMessage::Message(im)
    &&& im.id == id
    &&& im.from_id == 1u32
    &&& im.viewtype == Viewtype::Text
    &&& im.text == Some(text)
    &&& im.quote is None
    &&& im.timestamp is None
    &&& im.is_info == false
    &&& im.file is None
}

/// The message appended by a file send carries the fresh id, the given
/// content type, attachment path and caption.
pub open spec fn is_fresh_file_message(
    m: ChatMessage,
    id: u32,
    typ: Viewtype,
    path: String,
    text: Option<String>,
) -> bool {
    &&& m matches ChatMessage::Message(im)
    &&& im.id == id
    &&& im.from_id == 1u32
    &&& im.viewtype == typ
    &&& im.text == text
    &&& im.quote is None
    &&& im.timestamp is None
    &&& im.is_info == false
    &&& im.file == Some(path)
}

/// The in-memory backend: accounts by id, the selected-account register,
/// fresh-id counters, and the call counter.
#[derive(Debug, PartialEq)]
pub struct Backend {
    pub accounts: IdMap<BackendAccount>,
    pub selected: Option<u32>,
    pub next_id: u32,
    pub next_msg_id: u32,
    pub calls: u64,
}

impl Backend {
    /// Account ids are unique and below the fresh-id counter, the selected
    /// account exists, and every account is well formed.
    pub open spec fn wf(self) -> bool {
        &&& self.accounts.wf()
        &&& (self.selected matches Some(id) ==> self.accounts.contains_key(id))
        &&& (forall|k: u32| self.accounts.contains_key(k) ==> k < self.next_id)
        &&& (forall|k: u32| #[trigger] self.accounts.contains_key(k)
            ==> self.accounts.spec_get(k)->Some_0.wf())
    }

    pub open spec fn has_account(self, id: u32) -> bool {
        self.accounts.contains_key(id)
    }

    /// The account carrying the id.
    pub open spec fn spec_account(self, id: u32) -> BackendAccount {
        self.accounts.spec_get(id)->Some_0
    }

    /// A backend with no accounts.
    pub fn new() -> (r: Self)
        ensures
            r.wf(),
            r.accounts.spec_len() == 0,
            forall|id: u32| !r.has_account(id),
            r.selected is None,
            r.calls == 0,
    {
        Backend {
            accounts: IdMap::new(),
            selected: None,
            next_id: 1,
            next_msg_id: 1,
            calls: 0,
        }
    }

    /// Creates a fresh, unconfigured account and hands back its id.
    pub fn add_account(&mut self) -> (id: u32)
        requires
            old(self).wf(),
            old(self).next_id < u32::MAX,
        ensures
            final(self).wf(),
            id == old(self).next_id,
            !old(self).has_account(id),
            final(self).has_account(id),
            final(self).spec_account(id).email@ =~= Seq::<char>::empty(),
            final(self).spec_account(id).chats@ =~= Seq::<ChatData>::empty(),
            forall|k: u32| k != id ==> final(self).accounts.spec_get(k)
                == old(self).accounts.spec_get(k),
            forall|k: u32| k != id ==> final(self).has_account(k) == old(self).has_account(k),
            final(self).selected == old(self).selected,
            final(self).next_id == old(self).next_id + 1,
            final(self).next_msg_id == old(self).next_msg_id,
            final(self).calls == bumped(old(self).calls),
    {
        let id = self.next_id;
        self.accounts.insert(id, BackendAccount::empty());
        self.next_id = self.next_id + 1;
        self.bump();
        id
    }

    /// Tears the account down; clears the selected-account register if it
    /// pointed at it. Fails if the backend does not know the id.
    pub fn remove_account(&mut self, id: u32) -> (r: Result<(), String>)
        requires
            old(self).wf(),
        ensures
            final(self).wf(),
            r is Ok <==> old(self).has_account(id),
            !final(self).has_account(id),
            forall|k: u32| k != id ==> final(self).accounts.spec_get(k)
                == old(self).accounts.spec_get(k),
            forall|k: u32| k != id ==> final(self).has_account(k) == old(self).has_account(k),
            final(self).selected == if old(self).selected == Some(id) {
                None::<u32>
            } else {
                old(self).selected
            },
            r is Err ==> final(self).accounts == old(self).accounts,
            r matches Err(e) ==> e@ == spec_fail_invalid_account(),
            final(self).next_id == old(self).next_id,
            final(self).next_msg_id == old(self).next_msg_id,
            final(self).calls == bumped(old(self).calls),
    {
        self.bump();
        if self.accounts.contains(id) {
            self.accounts.remove(id);
            if let Some(sel) = self.selected {
                if sel == id {
                    self.selected = None;
                }
            }
            Ok(())
        } else {
            Err(fail_invalid_account())
        }
    }

    /// Makes the account the selected one. Fails if the backend does not
    /// know the id.
    pub fn select_account(&mut self, id: u32) -> (r: Result<(), String>)
        requires
            old(self).wf(),
        ensures
            final(self).wf(),
            r is Ok <==> old(self).has_account(id),
            r is Ok ==> final(self).selected == Some(id),
            r is Err ==> final(self).selected == old(self).selected,
            r matches Err(e) ==> e@ == spec_fail_invalid_account(),
            final(self).accounts == old(self).accounts,
            final(self).next_id == old(self).next_id,
            final(self).next_msg_id == old(self).next_msg_id,
            final(self).calls == bumped(old(self).calls),
    {
        self.bump();
        if self.accounts.contains(id) {
            self.selected = Some(id);
            Ok(())
        } else {
            Err(fail_invalid_account())
        }
    }

    /// The id of the selected account, if one is selected.
    pub fn get_selected_account(&self) -> (r: Option<u32>)
        ensures
            r == self.selected,
    {
        self.selected
    }

    /// Attempts to log the account in with the given address; the network's
    /// verdict is handed in as `ok`. On success the account's address is
    /// configured; on failure nothing but the call counter changes.
    pub fn login(&mut self, id: u32, email: &str, password: &str, ok: bool) -> (r: Result<
        (),
        String,
    >)
        requires
            old(self).wf(),
            old(self).has_account(id),
        ensures
            final(self).wf(),
            r is Ok <==> ok,
            ok ==> {
                &&& final(self).spec_account(id).email@ == email@
                &&& final(self).spec_account(id).display_name
                    == old(self).spec_account(id).display_name
                &&& final(self).spec_account(id).profile_image
                    == old(self).spec_account(id).profile_image
                &&& final(self).spec_account(id).chats == old(self).spec_account(id).chats
            },
            !ok ==> final(self).accounts == old(self).accounts,
            r matches Err(e) ==> e@ == spec_fail_login(),
            forall|k: u32| k != id ==> final(self).accounts.spec_get(k)
                == old(self).accounts.spec_get(k),
            forall|k: u32| final(self).has_account(k) == old(self).has_account(k),
            final(self).selected == old(self).selected,
            final(self).next_id == old(self).next_id,
            final(self).next_msg_id == old(self).next_msg_id,
            final(self).calls == bumped(old(self).calls),
    {
        self.bump();
        if ok {
            let a = self.accounts.get_mut(id).unwrap();
            a.email = email.to_owned();
            Ok(())
        } else {
            Err(fail_login())
        }
    }

    /// Attempts to import an account backup from the given path; the
    /// outcome of the disk and network work is handed in as `ok`.
    pub fn import(&mut self, id: u32, path: &str, ok: bool) -> (r: Result<(), String>)
        requires
            old(self).wf(),
            old(self).has_account(id),
        ensures
            final(self).wf(),
            r is Ok <==> ok,
            final(self).accounts == old(self).accounts,
            r matches Err(e) ==> e@ == spec_fail_import(),
            final(self).selected == old(self).selected,
            final(self).next_id == old(self).next_id,
            final(self).next_msg_id == old(self).next_msg_id,
            final(self).calls == bumped(old(self).calls),
    {
        self.bump();
        if ok {
            Ok(())
        } else {
            Err(fail_import())
        }
    }

    /// Everything outside one account is as before, and that account kept
    /// its configuration; only its chat sequence may differ.
    pub open spec fn only_chats_changed(self, b0: Backend, account: u32) -> bool {
        &&& self.accounts.wf()
        &&& forall|k: u32| k != account ==> self.accounts.spec_get(k) == b0.accounts.spec_get(k)
        &&& forall|k: u32| self.has_account(k) == b0.has_account(k)
        &&& self.selected == b0.selected
        &&& self.next_id == b0.next_id
        &&& self.spec_account(account).email == b0.spec_account(account).email
        &&& self.spec_account(account).display_name == b0.spec_account(account).display_name
        &&& self.spec_account(account).profile_image == b0.spec_account(account).profile_image
    }

    /// Nothing changed but the call counter.
    pub open spec fn only_calls_changed(self, b0: Backend) -> bool {
        &&& self.accounts == b0.accounts
        &&& self.selected == b0.selected
        &&& self.next_id == b0.next_id
        &&& self.next_msg_id == b0.next_msg_id
        &&& self.calls == bumped(b0.calls)
    }

    /// Sets the chat's visibility: pinned, archived, or neither. Fails if
    /// the account does not have the chat.
    pub fn set_chat_visibility(
        &mut self,
        account: u32,
        chat_id: u32,
        visibility: ChatVisibility,
    ) -> (r: Result<(), String>)
        requires
            old(self).wf(),
            old(self).has_account(account),
        ensures
            final(self).wf(),
            final(self).calls == bumped(old(self).calls),
            r is Ok <==> old(self).spec_account(account).has_chat(chat_id),
            r is Err ==> final(self).only_calls_changed(*old(self)),
            r matches Err(e) ==> e@ == spec_fail_invalid_chat(),
            r is Ok ==> {
                let chats0 = old(self).spec_account(account).chats@;
                let chats1 = final(self).spec_account(account).chats@;
                let i = chat_index_of(chats0, chat_id);
                &&& final(self).only_chats_changed(*old(self), account)
                &&& final(self).next_msg_id == old(self).next_msg_id
                &&& chats1.len() == chats0.len()
                &&& forall|j: int| 0 <= j < chats0.len() && j != i ==> chats1[j] == chats0[j]
                &&& chats1[i].messages == chats0[i].messages
                &&& chats1[i].summary == ChatState {
                    is_pinned: visibility is Pinned,
                    is_archived: visibility is Archived,
                    ..chats0[i].summary
                }
            },
    {
        self.bump();
        let pos = self.accounts.get(account).unwrap().chat_position(chat_id);
        match pos {
            Some(i) => {
                let a = self.accounts.get_mut(account).unwrap();
                a.chats[i].summary.is_pinned = matches!(visibility, ChatVisibility::Pinned);
                a.chats[i].summary.is_archived = matches!(visibility, ChatVisibility::Archived);
                Ok(())
            },
            None => Err(fail_invalid_chat()),
        }
    }

    /// Accepts a contact request: the chat stops being a request and can
    /// be written to. Fails if the account does not have the chat.
    pub fn accept_contact_request(&mut self, account: u32, chat_id: u32) -> (r: Result<
        (),
        String,
    >)
        requires
            old(self).wf(),
            old(self).has_account(account),
        ensures
            final(self).wf(),
            final(self).calls == bumped(old(self).calls),
            r is Ok <==> old(self).spec_account(account).has_chat(chat_id),
            r is Err ==> final(self).only_calls_changed(*old(self)),
            r matches Err(e) ==> e@ == spec_fail_invalid_chat(),
            r is Ok ==> {
                let chats0 = old(self).spec_account(account).chats@;
                let chats1 = final(self).spec_account(account).chats@;
                let i = chat_index_of(chats0, chat_id);
                &&& final(self).only_chats_changed(*old(self), account)
                &&& final(self).next_msg_id == old(self).next_msg_id
                &&& chats1.len() == chats0.len()
                &&& forall|j: int| 0 <= j < chats0.len() && j != i ==> chats1[j] == chats0[j]
                &&& chats1[i].messages == chats0[i].messages
                &&& chats1[i].summary == ChatState {
                    is_contact_request: false,
                    can_send: true,
                    ..chats0[i].summary
                }
            },
    {
        self.bump();
        let pos = self.accounts.get(account).unwrap().chat_position(chat_id);
        match pos {
            Some(i) => {
                let a = self.accounts.get_mut(account).unwrap();
                a.chats[i].summary.is_contact_request = false;
                a.chats[i].summary.can_send = true;
                Ok(())
            },
            None => Err(fail_invalid_chat()),
        }
    }

    /// Blocks the chat's contact: the chat leaves the account's chat
    /// collection. Fails if the account does not have the chat.
    pub fn block_contact(&mut self, account: u32, chat_id: u32) -> (r: Result<(), String>)
        requires
            old(self).wf(),
            old(self).has_account(account),
        ensures
            final(self).wf(),
            final(self).calls == bumped(old(self).calls),
            r is Ok <==> old(self).spec_account(account).has_chat(chat_id),
            r is Err ==> final(self).only_calls_changed(*old(self)),
            r matches Err(e) ==> e@ == spec_fail_invalid_chat(),
            r is Ok ==> {
                let chats0 = old(self).spec_account(account).chats@;
                let chats1 = final(self).spec_account(account).chats@;
                &&& final(self).only_chats_changed(*old(self), account)
                &&& final(self).next_msg_id == old(self).next_msg_id
                &&& chats1 == chats0.remove(chat_index_of(chats0, chat_id))
                &&& !final(self).spec_account(account).has_chat(chat_id)
                &&& (forall|cid: u32|
                    cid != chat_id ==> final(self).spec_account(account).has_chat(cid) == old(
                        self,
                    ).spec_account(account).has_chat(cid))
            },
    {
        self.bump();
        let pos = self.accounts.get(account).unwrap().chat_position(chat_id);
        match pos {
            Some(i) => {
                let a = self.accounts.get_mut(account).unwrap();
                let ghost chats0 = a.chats@;
                a.chats.remove(i);
                proof {
                    let chats1 = a.chats@;
                    assert forall|x: int, y: int| 0 <= x < y < chats1.len() implies chats1[x].summary.id
                        != chats1[y].summary.id by {
                        let x0 = if x < i { x } else { x + 1 };
                        let y0 = if y < i { y } else { y + 1 };
                        assert(chats1[x] == chats0[x0] && chats1[y] == chats0[y0]);
                    }
                    assert forall|j: int| 0 <= j < chats1.len() implies chats1[j].summary.id
                        != chat_id by {
                        let j0 = if j < i { j } else { j + 1 };
                        assert(chats1[j] == chats0[j0]);
                        assert(j0 != i);
                    }
                    assert forall|cid: u32| cid != chat_id implies #[trigger] chats_contain(
                        chats1,
                        cid,
                    ) == chats_contain(chats0, cid) by {
                        if chats_contain(chats0, cid) {
                            let j = chat_index_of(chats0, cid);
                            assert(j != i);
                            let j1 = if j < i { j } else { j - 1 };
                            assert(chats1[j1] == chats0[j]);
                            assert(chats_contain(chats1, cid));
                        }
                        if chats_contain(chats1, cid) {
                            let j = chat_index_of(chats1, cid);
                            let j0 = if j < i { j } else { j + 1 };
                            assert(chats1[j] == chats0[j0]);
                            assert(chats_contain(chats0, cid));
                        }
                    }
                }
                Ok(())
            },
            None => Err(fail_invalid_chat()),
        }
    }

    /// Appends a plain text message to the chat and hands back its fresh
    /// id. Fails if the account does not have the chat.
    pub fn send_text(&mut self, account: u32, chat_id: u32, text: String) -> (r: Result<
        u32,
        String,
    >)
        requires
            old(self).wf(),
            old(self).has_account(account),
            old(self).next_msg_id < u32::MAX,
        ensures
            final(self).wf(),
            final(self).calls == bumped(old(self).calls),
            r is Ok <==> old(self).spec_account(account).has_chat(chat_id),
            r is Err ==> final(self).only_calls_changed(*old(self)),
            r matches Err(e) ==> e@ == spec_fail_invalid_chat(),
            r is Ok ==> {
                let chats0 = old(self).spec_account(account).chats@;
                let chats1 = final(self).spec_account(account).chats@;
                let i = chat_index_of(chats0, chat_id);
                &&& final(self).only_chats_changed(*old(self), account)
                &&& final(self).next_msg_id == old(self).next_msg_id + 1
                &&& r->Ok_0 == old(self).next_msg_id
                &&& chats1.len() == chats0.len()
                &&& forall|j: int| 0 <= j < chats0.len() && j != i ==> chats1[j] == chats0[j]
                &&& chats1[i].summary == chats0[i].summary
                &&& chats1[i].messages@ == chats0[i].messages@.push(
                    chats1[i].messages@.last(),
                )
                &&& is_fresh_text_message(chats1[i].messages@.last(), old(self).next_msg_id, text)
            },
    {
        self.bump();
        let id = self.next_msg_id;
        let pos = self.accounts.get(account).unwrap().chat_position(chat_id);
        match pos {
            Some(i) => {
                let a = self.accounts.get_mut(account).unwrap();
                let m = ChatMessage::Message(
                    InnerChatMessage {
                        id,
                        from_id: 1,
                        from_first_name: String::new(),
                        from_profile_image: None,
                        from_color: 0,
                        viewtype: Viewtype::Text,
                        state: String::new(),
                        text: Some(text),
                        quote: None,
                        timestamp: None,
                        is_info: false,
                        file: None,
                        file_height: 0,
                        file_width: 0,
                        is_first: false,
                    },
                );
                a.chats[i].messages.push(m);
                self.next_msg_id = id + 1;
                Ok(id)
            },
            None => Err(fail_invalid_chat()),
        }
    }

    /// Appends a file message to the chat and hands back its fresh id.
    /// Fails if the account does not have the chat.
    pub fn send_file(
        &mut self,
        account: u32,
        chat_id: u32,
        typ: Viewtype,
        path: String,
        text: Option<String>,
    ) -> (r: Result<u32, String>)
        requires
            old(self).wf(),
            old(self).has_account(account),
            old(self).next_msg_id < u32::MAX,
        ensures
            final(self).wf(),
            final(self).calls == bumped(old(self).calls),
            r is Ok <==> old(self).spec_account(account).has_chat(chat_id),
            r is Err ==> final(self).only_calls_changed(*old(self)),
            r matches Err(e) ==> e@ == spec_fail_invalid_chat(),
            r is Ok ==> {
                let chats0 = old(self).spec_account(account).chats@;
                let chats1 = final(self).spec_account(account).chats@;
                let i = chat_index_of(chats0, chat_id);
                &&& final(self).only_chats_changed(*old(self), account)
                &&& final(self).next_msg_id == old(self).next_msg_id + 1
                &&& r->Ok_0 == old(self).next_msg_id
                &&& chats1.len() == chats0.len()
                &&& forall|j: int| 0 <= j < chats0.len() && j != i ==> chats1[j] == chats0[j]
                &&& chats1[i].summary == chats0[i].summary
                &&& chats1[i].messages@ == chats0[i].messages@.push(
                    chats1[i].messages@.last(),
                )
                &&& is_fresh_file_message(
                    chats1[i].messages@.last(),
                    old(self).next_msg_id,
                    typ,
                    path,
                    text,
                )
            },
    {
        self.bump();
        let id = self.next_msg_id;
        let pos = self.accounts.get(account).unwrap().chat_position(chat_id);
        match pos {
            Some(i) => {
                let a = self.accounts.get_mut(account).unwrap();
                let m = ChatMessage::Message(
                    InnerChatMessage {
                        id,
                        from_id: 1,
                        from_first_name: String::new(),
                        from_profile_image: None,
                        from_color: 0,
                        viewtype: typ,
                        state: String::new(),
                        text,
                        quote: None,
                        timestamp: None,
                        is_info: false,
                        file: Some(path),
                        file_height: 0,
                        file_width: 0,
                        is_first: false,
                    },
                );
                a.chats[i].messages.push(m);
                self.next_msg_id = id + 1;
                Ok(id)
            },
            None => Err(fail_invalid_chat()),
        }
    }

    /// Pokes the backend's own connectivity management; no observable
    /// state of the model changes.
    pub fn maybe_network(&self)
    {
    }

    /// Counts one backend call; the counter holds at its greatest value.
    fn bump(&mut self)
        ensures
            final(self).calls == bumped(old(self).calls),
            final(self).accounts == old(self).accounts,
            final(self).selected == old(self).selected,
            final(self).next_id == old(self).next_id,
            final(self).next_msg_id == old(self).next_msg_id,
    {
        if self.calls < u64::MAX {
            self.calls = self.calls + 1;
        }
    }
}

/// How a chat is listed: normally, pinned at the top, or archived.
#[derive(Debug, PartialEq, Eq, Clone, Copy)]
pub enum ChatVisibility {
    Normal,
    Pinned,
    Archived,
}

/// The body of the message with the given id, if the chat holds one:
/// its text, or empty when it has none.
pub fn message_text_in(chat: &ChatData, msg_id: u32) -> (r: Option<String>)
    ensures
        match r {
            Some(t) => exists|i: int|
                0 <= i < chat.messages@.len() && message_matches(
                    chat.messages@[i],
                    msg_id,
                    t@,
                ),
            None => forall|i: int|
                0 <= i < chat.messages@.len() ==> !(#[trigger] chat.messages@[i] matches
                ChatMessage::Message(im) && im.id == msg_id),
        },
{
    let n = chat.messages.len();
    let mut i: usize = 0;
    while i < n
        invariant
            n == chat.messages@.len(),
            i <= n,
            forall|j: int|
                0 <= j < i ==> !(#[trigger] chat.messages@[j] matches ChatMessage::Message(im)
                    && im.id == msg_id),
        decreases n - i,
    {
        if let ChatMessage::Message(im) = &chat.messages[i] {
            if im.id == msg_id {
                let body = match &im.text {
                    Some(t) => t.clone(),
                    None => String::new(),
                };
                return Some(body);
            }
        }
        i += 1;
    }
    None
}

/// The message at hand carries the id, and the text is its body (empty
/// when it has none).
pub open spec fn message_matches(m: ChatMessage, msg_id: u32, text: Seq<char>) -> bool {
    &&& m matches ChatMessage::Message(im)
    &&& im.id == msg_id
    &&& text == match im.text {
        Some(t) => t@,
        None => Seq::<char>::empty(),
    }
}

/// The message of a failed chat lookup.
pub fn fail_invalid_chat() -> (r: String)
    ensures
        r@ == spec_fail_invalid_chat(),
{
    proof {
        reveal_strlit("invalid chat");
    }
    "invalid chat".to_owned()
}

pub open spec fn spec_fail_invalid_chat() -> Seq<char> {
    "invalid chat"@
}

/// The message of a failed account lookup.
pub fn fail_invalid_account() -> (r: String)
    ensures
        r@ == spec_fail_invalid_account(),
{
    proof {
        reveal_strlit("invalid account");
    }
    "invalid account".to_owned()
}

pub open spec fn spec_fail_invalid_account() -> Seq<char> {
    "invalid account"@
}

/// The message recorded when a login attempt fails.
pub fn fail_login() -> (r: String)
    ensures
        r@ == spec_fail_login(),
{
    proof {
        reveal_strlit("failed to login");
    }
    "failed to login".to_owned()
}

pub open spec fn spec_fail_login() -> Seq<char> {
    "failed to login"@
}

/// The message recorded when an import attempt fails.
pub fn fail_import() -> (r: String)
    ensures
        r@ == spec_fail_import(),
{
    proof {
        reveal_strlit("failed to import");
    }
    "failed to import".to_owned()
}

pub open spec fn spec_fail_import() -> Seq<char> {
    "failed to import"@
}

} // verus!
