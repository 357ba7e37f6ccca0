//! The ticket lifecycle: claiming and closing.
//!
//! A ticket's claim status is not a stored flag: it is which category its
//! channel sits in. Claiming moves the channel to the claimed category;
//! closing notifies the author and deletes the channel. Both commands are
//! role-gated, and an unauthorized or misplaced invocation is a silent
//! no-op, never an error shown to the user.

use vstd::prelude::*;

use crate::config::ServerConfig;

verus! {

/// One open support ticket. The dedicated channel is the natural key: at
/// most one open ticket exists per channel. `subject_id` of `None` means
/// the requester picked the "Other" option.
#[derive(Clone, Copy, Debug, PartialEq, Eq, Structural)]
pub struct Ticket {
    pub channel_id: u64,
    pub server_id: u64,
    pub subject_id: Option<u64>,
    pub author_id: u64,
}

/// What the `claim` command decides to do.
#[derive(Clone, Copy, Debug, PartialEq, Eq, Structural)]
pub enum ClaimOutcome {
    /// Move the ticket's channel into the claimed category.
    Move { channel_id: u64, category_id: u64 },
    /// Silently do nothing.
    Ignore,
}

/// What `claim` decides: the channel moves to the claimed category exactly
/// when the caller wears the helper role and the invoking channel holds a
/// ticket.
pub open spec fn claim_spec(
    config: ServerConfig,
    caller_has_helper_role: bool,
    ticket: Option<Ticket>,
    channel_id: u64,
) -> ClaimOutcome {
    if caller_has_helper_role && ticket is Some && config.claimed_category_id is Some {
        ClaimOutcome::Move { channel_id, category_id: config.claimed_category_id->Some_0 }
    } else {
        ClaimOutcome::Ignore
    }
}

/// Decides the `claim` command for the ticket found in the invoking channel
/// (if any). `caller_has_helper_role` is the platform's answer to whether
/// the caller wears the server's helper role.
pub fn claim(
    config: &ServerConfig,
    caller_has_helper_role: bool,
    ticket: Option<Ticket>,
    channel_id: u64,
) -> (r: ClaimOutcome)
    requires
        config.setup_complete,
        config.well_formed(),
    ensures
        r == claim_spec(*config, caller_has_helper_role, ticket, channel_id),
{
    if !caller_has_helper_role {
        return ClaimOutcome::Ignore;
    }
    if ticket.is_none() {
        return ClaimOutcome::Ignore;
    }
    match config.claimed_category_id {
        Some(category_id) => ClaimOutcome::Move { channel_id, category_id },
        None => ClaimOutcome::Ignore,
    }
}

/// Law: a caller without the helper role never moves a ticket's channel —
/// `claim` is a silent no-op for every such caller, configuration, ticket
/// and channel.
pub proof fn lemma_claim_gated_by_helper_role(
    config: ServerConfig,
    ticket: Option<Ticket>,
    channel_id: u64,
)
    ensures
        claim_spec(config, false, ticket, channel_id) == ClaimOutcome::Ignore,
        claim_spec(config, true, None, channel_id) == ClaimOutcome::Ignore,
{
}

/// What happens to the stored ticket row when its channel is closed; the
/// engine exposes the choice rather than fixing one.
#[derive(Clone, Copy, Debug, PartialEq, Eq, Structural)]
pub enum RetentionPolicy {
    /// Delete the row outright.
    HardDelete,
    /// Keep the row, flagged closed, for history.
    MarkClosed,
}

/// What the `close` command decides to do.
#[derive(Clone, Copy, Debug, PartialEq, Eq, Structural)]
pub enum CloseOutcome {
    /// Send the author a closed-ticket notice, delete the channel, and
    /// apply the retention policy to the row.
    Close { notify_user_id: u64, channel_id: u64, retention: RetentionPolicy },
    /// Silently do nothing.
    Ignore,
}

/// What `close` decides: only the ticket's own author closes it; everyone
/// else — helpers and moderators included — is silently ignored, as is a
/// channel that holds no ticket.
pub open spec fn close_spec(
    ticket: Option<Ticket>,
    caller_id: u64,
    retention: RetentionPolicy,
) -> CloseOutcome {
    match ticket {
        Some(t) => if t.author_id == caller_id {
            CloseOutcome::Close {
                notify_user_id: t.author_id,
                channel_id: t.channel_id,
                retention,
            }
        } else {
            CloseOutcome::Ignore
        },
        None => CloseOutcome::Ignore,
    }
}

/// Decides the `close` command for the ticket found in the invoking channel
/// (if any).
pub fn close(ticket: Option<Ticket>, caller_id: u64, retention: RetentionPolicy) -> (r:
    CloseOutcome)
    ensures
        r == close_spec(ticket, caller_id, retention),
{
    match ticket {
        Some(t) => {
            if t.author_id == caller_id {
                CloseOutcome::Close {
                    notify_user_id: t.author_id,
                    channel_id: t.channel_id,
                    retention,
                }
            } else {
                CloseOutcome::Ignore
            }
        }
        None => CloseOutcome::Ignore,
    }
}

/// Law: nobody but the ticket's author ever closes it — for every caller
/// other than `author_id`, `close` is a silent no-op.
pub proof fn lemma_close_gated_by_author(t: Ticket, caller_id: u64, retention: RetentionPolicy)
    requires
        caller_id != t.author_id,
    ensures
        close_spec(Some(t), caller_id, retention) == CloseOutcome::Ignore,
        close_spec(None, caller_id, retention) == CloseOutcome::Ignore,
{
}

} // verus!
