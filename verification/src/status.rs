//! Run statuses as the assistant provider reports them, and what each one
//! means for a relay that is polling a run.

use vstd::prelude::*;
use vstd::string::*;

verus! {

/// The state of a run, as reported by the assistant provider.
#[derive(Clone, Copy, Debug, PartialEq, Eq, Structural)]
pub enum RunStatus {
    Queued,
    InProgress,
    Cancelling,
    RequiresAction,
    Cancelled,
    Failed,
    Expired,
    Completed,
}

impl RunStatus {
    /// The run has not reached a terminal status: polling goes on.
    pub open spec fn pending(self) -> bool {
        self is Queued || self is InProgress || self is Cancelling
    }

    /// The text shown to the user when a run ends in this status without
    /// producing an answer; `None` for a status that is pending or successful.
    pub open spec fn failure_text(self) -> Option<Seq<char>> {
        match self {
            RunStatus::RequiresAction => Some("Action required for OpenAI assistant"@),
            RunStatus::Cancelled => Some("Run is cancelled"@),
            RunStatus::Failed => Some("Run is failed"@),
            RunStatus::Expired => Some("Run is expired"@),
            _ => None,
        }
    }

    /// Whether polling must go on after this status was fetched.
    pub fn is_pending(&self) -> (pending: bool)
        ensures
            pending == self.pending(),
    {
        match self {
            RunStatus::Queued | RunStatus::InProgress | RunStatus::Cancelling => true,
            _ => false,
        }
    }

    /// The user-visible text for a run that ended without an answer.
    pub fn failure_message(&self) -> (message: Option<String>)
        ensures
            message.deep_view() == self.failure_text(),
    {
        match self {
            RunStatus::RequiresAction => Some(
                String::from_str("Action required for OpenAI assistant"),
            ),
            RunStatus::Cancelled => Some(String::from_str("Run is cancelled")),
            RunStatus::Failed => Some(String::from_str("Run is failed")),
            RunStatus::Expired => Some(String::from_str("Run is expired")),
            _ => None,
        }
    }
}

/// The text shown to the user when the poll budget runs out.
pub open spec fn timeout_text() -> Seq<char> {
    "Timeout"@
}

/// The user-visible text for a run that did not finish within the poll budget.
pub fn timeout_message() -> (message: String)
    ensures
        message@ == timeout_text(),
{
    String::from_str("Timeout")
}

/// Whether `text` is one of the fixed texts that stand in for an answer: the
/// timeout text, or the text of a run that ended without success.
pub open spec fn is_fixed_text(text: Seq<char>) -> bool {
    ||| text == timeout_text()
    ||| RunStatus::RequiresAction.failure_text() == Some(text)
    ||| RunStatus::Cancelled.failure_text() == Some(text)
    ||| RunStatus::Failed.failure_text() == Some(text)
    ||| RunStatus::Expired.failure_text() == Some(text)
}

} // verus!
