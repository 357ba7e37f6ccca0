//! Verified core of a support-ticket workflow engine for a chat platform.
//!
//! End users open tickets by reacting to a fixed message; the engine opens a
//! dedicated channel, classifies the request against a fuzzy-matched subject
//! list, and moves the ticket between unclaimed, claimed and closed states.
//! All platform and store traffic is expressed as events coming in and
//! actions going out, so every decision the engine makes is verified here;
//! an unverified driver performs the actions and feeds the events back.

use vstd::prelude::*;

pub mod config;
pub mod dispatch;
pub mod intake;
pub mod matcher;
pub mod parser;
pub mod reset;
pub mod subject;
pub mod text;
pub mod tickets;
pub mod wizard;

verus! {

/// Deadline, in seconds, of every conversational wait on a user's answer.
/// The driver converts an elapsed deadline into the timeout event of the
/// step it was waiting on; a timeout is an expected outcome, not an error.
pub const USER_PROMPT_TIMEOUT_SECS: u64 = 60;

} // verus!
