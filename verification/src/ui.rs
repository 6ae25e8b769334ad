//! The engine-facing pieces of the UI layer: the login form's state, the
//! widget the right-hand panel can show, and the sidebar's text
//! truncation. Rendering itself belongs to the host.

use vstd::prelude::*;
use vstd::string::StrSliceExecFns;
use vstd::string::StringSliceAdditionalSpecFns;
use vstd::string::StringExecFns;

verus! {

/// What the login/import form holds while the user fills it in.
#[derive(Debug, PartialEq)]
pub struct AddAccount {
    pub email: String,
    pub password: String,
}

impl AddAccount {
    /// An empty form.
    pub fn new() -> (r: Self)
        ensures
            r.email@ =~= Seq::<char>::empty(),
            r.password@ =~= Seq::<char>::empty(),
    {
        AddAccount { email: String::new(), password: String::new() }
    }
}

impl Default for AddAccount {
    fn default() -> (r: Self)
        ensures
            r.email@ =~= Seq::<char>::empty(),
            r.password@ =~= Seq::<char>::empty(),
    {
        AddAccount::new()
    }
}

/// The widget shown beside the main panel, if any.
#[derive(Debug)]
pub enum WidgetOption {
    AddAccount(AddAccount),
}

/// Shortens a label: one whose encoding holds at most `len` bytes passes
/// unchanged, a longer one is cut to its first `len` characters (or all of
/// them, for a multi-byte label of fewer characters) and marked with a
/// trailing ellipsis.
pub fn truncate(text: &str, len: usize) -> (r: String)
    requires
        text.spec_bytes().len() <= usize::MAX,
    ensures
        text.spec_bytes().len() <= len ==> r@ == text@,
        text.spec_bytes().len() > len ==> r@ == text@.take(
            if len <= text@.len() {
                len as int
            } else {
                text@.len() as int
            },
        ) + " ..."@,
{
    if text.len() <= len {
        text.to_owned()
    } else {
        let chars = text.unicode_len();
        let cut = if len <= chars {
            len
        } else {
            chars
        };
        let head = text.substring_char(0, cut);
        let mut out = head.to_owned();
        out.append(" ...");
        proof {
            assert(out@ =~= text@.take(cut as int) + " ..."@);
        }
        out
    }
}

} // verus!
