//! The reset command's decisions: an explicit confirmation gate, then one
//! yes/no question per created resource.
//!
//! The command itself deletes the server row and, as the admin chooses, the
//! roles and categories the wizard created; the ticket and log channels were
//! supplied by the admin and are never touched. All that I/O sits outside;
//! here stand the decisions it branches on.

use vstd::prelude::*;

use crate::text::str_eq;
use crate::wizard::SetupError;

verus! {

/// The exact text the admin must type to confirm a reset.
pub const RESET_CONFIRM_TEXT: &'static str = "CONFIRM";

/// How the reset confirmation came out.
#[derive(Clone, Copy, Debug, PartialEq, Eq, Structural)]
pub enum ResetDecision {
    /// The admin typed the confirmation text: go ahead.
    Proceed,
    /// The admin replied something else: do nothing.
    Cancelled,
    /// The wait timed out: do nothing.
    TimedOut,
}

/// What the confirmation reply means.
pub open spec fn reset_decision_spec(reply: Option<Seq<char>>) -> ResetDecision {
    match reply {
        None => ResetDecision::TimedOut,
        Some(s) => if s == "CONFIRM"@ {
            ResetDecision::Proceed
        } else {
            ResetDecision::Cancelled
        },
    }
}

/// Decides whether the reset goes ahead: only the exact confirmation text
/// does; anything else, or a timeout, leaves the server untouched.
pub fn reset_decision(reply: Option<&str>) -> (r: ResetDecision)
    ensures
        r == reset_decision_spec(crate::wizard::reply_view(reply)),
{
    match reply {
        None => ResetDecision::TimedOut,
        Some(s) => {
            if str_eq(s, RESET_CONFIRM_TEXT) {
                ResetDecision::Proceed
            } else {
                ResetDecision::Cancelled
            }
        }
    }
}

/// The emoji offered for "yes".
pub open spec fn yes_emoji() -> Seq<char> {
    "\u{2705}"@
}

/// What a yes/no reaction means: a timeout aborts; the yes emoji means yes;
/// any other reaction means no.
pub open spec fn yes_no_spec(reaction: Option<Seq<char>>) -> Result<bool, SetupError> {
    match reaction {
        None => Err(SetupError::Timeout),
        Some(e) => Ok(e == yes_emoji()),
    }
}

/// Interprets the admin's reaction to a yes/no confirmation question.
/// `None` stands for a timed-out wait.
pub fn interpret_yes_no(reaction: Option<&str>) -> (r: Result<bool, SetupError>)
    ensures
        r == yes_no_spec(crate::wizard::reply_view(reaction)),
{
    match reaction {
        None => Err(SetupError::Timeout),
        Some(e) => Ok(str_eq(e, "\u{2705}")),
    }
}

} // verus!
