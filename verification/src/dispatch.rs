//! The reaction dispatcher: the single entry point for inbound reaction
//! events.
//!
//! Almost every reaction a server sees is noise. An event opens a ticket
//! only when a human (not a bot) put the ticket emoji on the configured
//! reaction message in the configured channel of a fully set-up server;
//! everything else is silently dropped.

use vstd::prelude::*;

use crate::config::ServerConfig;
use crate::text::str_eq;

verus! {

/// The emoji users react with to open a ticket.
pub open spec fn ticket_emoji() -> Seq<char> {
    "\u{1F3AB}"@
}

/// The ticket emoji as text, e.g. to post or to strip a reaction.
pub fn ticket_emoji_text() -> (r: &'static str)
    ensures
        r@ == ticket_emoji(),
{
    "\u{1F3AB}"
}

/// An inbound "reaction added" event, reduced to what the dispatcher reads.
pub struct ReactionEvent {
    /// The guild the reaction happened in.
    pub guild_id: u64,
    /// The channel holding the reacted message.
    pub channel_id: u64,
    /// The reacted message.
    pub message_id: u64,
    /// Who reacted.
    pub user_id: u64,
    /// Whether the reacting account is a bot.
    pub user_is_bot: bool,
    /// The emoji the user reacted with.
    pub emoji: String,
}

/// A reaction opens a ticket exactly when a human put the ticket emoji on
/// the configured reaction message of a fully set-up server.
pub open spec fn reaction_qualifies(config: ServerConfig, ev: ReactionEvent) -> bool {
    &&& !ev.user_is_bot
    &&& ev.emoji@ == ticket_emoji()
    &&& config.setup_complete
    &&& ev.guild_id == config.id
    &&& config.ticket_channel_id == Some(ev.channel_id)
    &&& config.ticket_message_id == Some(ev.message_id)
}

/// Filters an inbound reaction event: returns the unclaimed category to
/// create the ticket channel in when the event qualifies, and nothing — a
/// silent no-op — otherwise.
pub fn qualify_reaction(config: &ServerConfig, ev: &ReactionEvent) -> (r: Option<u64>)
    requires
        config.well_formed(),
    ensures
        r is Some <==> reaction_qualifies(*config, *ev),
        r is Some ==> Some(r->Some_0) == config.unclaimed_category_id,
{
    if ev.user_is_bot {
        return None;
    }
    if !str_eq(ev.emoji.as_str(), ticket_emoji_text()) {
        return None;
    }
    if !config.setup_complete {
        return None;
    }
    if ev.guild_id != config.id {
        return None;
    }
    let ticket_channel_ok = match config.ticket_channel_id {
        Some(c) => c == ev.channel_id,
        None => false,
    };
    if !ticket_channel_ok {
        return None;
    }
    let ticket_message_ok = match config.ticket_message_id {
        Some(m) => m == ev.message_id,
        None => false,
    };
    if !ticket_message_ok {
        return None;
    }
    match config.unclaimed_category_id {
        Some(cat) => Some(cat),
        None => None,
    }
}

} // verus!
