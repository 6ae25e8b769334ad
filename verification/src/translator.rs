//! Raw backend events and their translation vocabulary. A raw event is
//! translated into at most one application event; message-related and
//! chat-modified notices all collapse into one invalidation event, and
//! uninformative notices are dropped.

use vstd::prelude::*;

use crate::types::Progress;

verus! {

/// A raw event as the backend emits it, tagged by the host with its
/// originating account id.
#[derive(Debug, PartialEq)]
pub enum RawEvent {
    ConfigureProgress { progress: usize },
    ImexProgress { progress: usize },
    ImapConnected,
    SmtpConnected,
    IncomingMsg { chat_id: u32, msg_id: u32 },
    MsgDelivered { chat_id: u32 },
    MsgFailed { chat_id: u32 },
    MsgsChanged { chat_id: u32 },
    MsgRead { chat_id: u32 },
    ChatModified { chat_id: u32 },
    MsgsNoticed { chat_id: u32 },
    Info(String),
    Warning(String),
    Error(String),
    ConnectivityChanged,
    Other,
}

/// Translating the raw event reads or updates the account's record, so the
/// account must be known.
pub open spec fn event_needs_account(e: RawEvent) -> bool {
    match e {
        RawEvent::ConfigureProgress { .. } => true,
        RawEvent::ImexProgress { .. } => true,
        RawEvent::ImapConnected => true,
        RawEvent::SmtpConnected => true,
        RawEvent::IncomingMsg { .. } => true,
        _ => false,
    }
}

/// The progress outcome a raw progress value stands for: zero is a
/// failure signal, the full scale is success, anything else a step.
pub open spec fn spec_progress_of(p: usize) -> Progress {
    if p == 0 {
        Progress::Error
    } else if p == 1000 {
        Progress::Success
    } else {
        Progress::Step(p)
    }
}

/// Maps a raw progress value to its outcome.
pub fn progress_of(p: usize) -> (r: Progress)
    ensures
        r == spec_progress_of(p),
{
    if p == 0 {
        Progress::Error
    } else if p == 1000 {
        Progress::Success
    } else {
        Progress::Step(p)
    }
}

/// Progress values map monotonically onto the login lifecycle: zero to the
/// failure outcome, the full scale to success, and every value in between
/// to an intermediate step carrying that value.
pub proof fn lemma_progress_mapping(p: usize)
    ensures
        p == 0 ==> spec_progress_of(p) == Progress::Error,
        p == 1000 ==> spec_progress_of(p) == Progress::Success,
        0 < p < 1000 ==> spec_progress_of(p) == Progress::Step(p),
{
}

} // verus!
