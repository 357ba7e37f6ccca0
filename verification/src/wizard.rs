//! The setup wizard: the strictly sequential conversation that configures a
//! server before any ticket can be opened.
//!
//! Each step persists its result immediately, so a run that times out
//! leaves prior steps' state intact and a later run resumes where it
//! stopped: the next step is always decided from the stored configuration
//! alone. On an already-configured server the wizard decides "already set
//! up" and prescribes no mutation at all.

use vstd::prelude::*;

use crate::config::ServerConfig;
use crate::parser::{after_last_slash, mention_id, parse_discord_channel_id_url,
    parse_discord_mention, parse_u64_spec};
use crate::text::{str_eq, trim, trim_spaces};

verus! {

/// Name given to a freshly created helper role.
pub const HELPER_ROLE_NAME: &'static str = "Helper";

/// Name given to a freshly created moderator role.
pub const MODERATOR_ROLE_NAME: &'static str = "Moderator";

/// Name of the category for unclaimed tickets.
pub const UNCLAIMED_CATEGORY_NAME: &'static str = "Unclaimed Tickets";

/// Name of the category for claimed tickets.
pub const CLAIMED_CATEGORY_NAME: &'static str = "Claimed Tickets";

/// The next thing the wizard has to do, decided from the stored
/// configuration alone.
#[derive(Clone, Copy, Debug, PartialEq, Eq, Structural)]
pub enum WizardStep {
    /// The server is already configured: report so and stop; nothing may be
    /// mutated.
    AlreadyComplete,
    /// Ask for and validate the ticket-request channel.
    AskTicketChannel,
    /// Ask for and validate the log channel.
    AskLogChannel,
    /// Create the two ticket categories.
    CreateCategories,
    /// Resolve the helper role (create one or reuse an existing one).
    ResolveHelperRole,
    /// Resolve the moderator role the same way.
    ResolveModeratorRole,
    /// Post the reaction message in the configured ticket channel and react
    /// to it with the ticket emoji.
    PostReactionMessage { channel_id: u64 },
    /// Everything is collected: flip `setup_complete`.
    MarkComplete,
}

/// Whether performing a step writes to the store or the platform.
pub open spec fn step_mutates(s: WizardStep) -> bool {
    !(s is AlreadyComplete)
}

/// Which step comes next for configuration `c`: the first one whose result
/// is not stored yet.
pub open spec fn wizard_next_spec(c: ServerConfig) -> WizardStep {
    if c.setup_complete {
        WizardStep::AlreadyComplete
    } else if c.ticket_channel_id is None {
        WizardStep::AskTicketChannel
    } else if c.log_channel_id is None {
        WizardStep::AskLogChannel
    } else if c.unclaimed_category_id is None || c.claimed_category_id is None {
        WizardStep::CreateCategories
    } else if c.helper_role_id is None {
        WizardStep::ResolveHelperRole
    } else if c.moderator_role_id is None {
        WizardStep::ResolveModeratorRole
    } else if c.ticket_message_id is None {
        WizardStep::PostReactionMessage { channel_id: c.ticket_channel_id->Some_0 }
    } else {
        WizardStep::MarkComplete
    }
}

/// Decides the wizard's next step from the stored configuration. Running
/// the wizard is: perform the returned step, persist its result, repeat —
/// so an aborted run resumes exactly where its last persisted step left it.
pub fn wizard_next(config: &ServerConfig) -> (r: WizardStep)
    ensures
        r == wizard_next_spec(*config),
{
    if config.setup_complete {
        return WizardStep::AlreadyComplete;
    }
    if config.ticket_channel_id.is_none() {
        return WizardStep::AskTicketChannel;
    }
    if config.log_channel_id.is_none() {
        return WizardStep::AskLogChannel;
    }
    if config.unclaimed_category_id.is_none() || config.claimed_category_id.is_none() {
        return WizardStep::CreateCategories;
    }
    if config.helper_role_id.is_none() {
        return WizardStep::ResolveHelperRole;
    }
    if config.moderator_role_id.is_none() {
        return WizardStep::ResolveModeratorRole;
    }
    match config.ticket_channel_id {
        Some(channel_id) => {
            if config.ticket_message_id.is_none() {
                WizardStep::PostReactionMessage { channel_id }
            } else {
                WizardStep::MarkComplete
            }
        }
        None => WizardStep::AskTicketChannel,
    }
}

/// Law: on an already-configured server the wizard decides "already set up",
/// a step that mutates nothing — running `setup` twice performs zero
/// mutating calls the second time.
pub proof fn lemma_wizard_rerun_inert(c: ServerConfig)
    requires
        c.setup_complete,
    ensures
        wizard_next_spec(c) == WizardStep::AlreadyComplete,
        !step_mutates(wizard_next_spec(c)),
{
}

/// Everything that can cut a wizard step short.
#[derive(Clone, Copy, Debug, PartialEq, Eq, Structural)]
pub enum SetupError {
    /// The admin did not answer in time; the run aborts, prior steps stay.
    Timeout,
    /// The answer is neither a channel ID nor a channel deep link.
    InvalidChannel,
    /// The referenced channel is not a text channel.
    NotTextChannel,
    /// The reaction was neither of the two offered choices.
    InvalidChoice,
    /// The answer is not a role mention or role ID.
    InvalidRole,
}

impl SetupError {
    /// The user-visible text for this error.
    pub fn message(&self) -> (r: &'static str)
        ensures
            *self is Timeout ==> r@ == "Server setup timed out, please try again"@,
            *self is InvalidChannel ==> r@ == "Invalid channel ID"@,
            *self is NotTextChannel ==> r@ == "Channel must be a text channel"@,
            *self is InvalidChoice ==> r@ == "Invalid reaction"@,
            *self is InvalidRole ==> r@ == "Invalid role ID"@,
    {
        match self {
            SetupError::Timeout => "Server setup timed out, please try again",
            SetupError::InvalidChannel => "Invalid channel ID",
            SetupError::NotTextChannel => "Channel must be a text channel",
            SetupError::InvalidChoice => "Invalid reaction",
            SetupError::InvalidRole => "Invalid role ID",
        }
    }
}

/// The view of an optional reply: the text the admin sent, or nothing on a
/// timeout.
pub open spec fn reply_view(reply: Option<&str>) -> Option<Seq<char>> {
    match reply {
        Some(s) => Some(s@),
        None => None,
    }
}

/// What resolving a channel answer yields: a timeout aborts; otherwise the
/// trimmed text must read as a channel ID or deep-link URL.
pub open spec fn channel_reply_spec(reply: Option<Seq<char>>) -> Result<u64, SetupError> {
    match reply {
        None => Err(SetupError::Timeout),
        Some(s) => match parse_u64_spec(after_last_slash(trim_spaces(s))) {
            Some(id) => Ok(id),
            None => Err(SetupError::InvalidChannel),
        },
    }
}

/// Resolves the admin's answer to a channel question (steps asking for the
/// ticket-request and log channels). `None` stands for a timed-out wait.
pub fn resolve_channel_reply(reply: Option<&str>) -> (r: Result<u64, SetupError>)
    ensures
        r == channel_reply_spec(reply_view(reply)),
{
    match reply {
        None => Err(SetupError::Timeout),
        Some(s) => {
            let t = trim(s);
            match parse_discord_channel_id_url(t) {
                Some(id) => Ok(id),
                None => Err(SetupError::InvalidChannel),
            }
        }
    }
}

/// Accepts the channel only when the platform reports it text-capable.
pub fn validate_channel_kind(channel_id: u64, is_text_channel: bool) -> (r: Result<
    u64,
    SetupError,
>)
    ensures
        is_text_channel ==> r == Ok::<u64, SetupError>(channel_id),
        !is_text_channel ==> r == Err::<u64, SetupError>(SetupError::NotTextChannel),
{
    if is_text_channel {
        Ok(channel_id)
    } else {
        Err(SetupError::NotTextChannel)
    }
}

/// How the admin wants a role provided.
#[derive(Clone, Copy, Debug, PartialEq, Eq, Structural)]
pub enum RoleChoice {
    /// Create a fresh role.
    CreateNew,
    /// Parse a role the admin already has.
    UseExisting,
}

/// The emoji offered for "create a new role".
pub open spec fn choice_new_emoji() -> Seq<char> {
    "\u{1F195}"@
}

/// The emoji offered for "use an existing role".
pub open spec fn choice_existing_emoji() -> Seq<char> {
    "\u{1F517}"@
}

/// What the role-mode reaction means: a timeout aborts; the two offered
/// emoji pick a mode; anything else is rejected.
pub open spec fn role_choice_spec(reaction: Option<Seq<char>>) -> Result<
    RoleChoice,
    SetupError,
> {
    match reaction {
        None => Err(SetupError::Timeout),
        Some(e) => if e == choice_new_emoji() {
            Ok(RoleChoice::CreateNew)
        } else if e == choice_existing_emoji() {
            Ok(RoleChoice::UseExisting)
        } else {
            Err(SetupError::InvalidChoice)
        },
    }
}

/// Resolves the admin's reaction to the "new role or existing role?"
/// question. `None` stands for a timed-out wait.
pub fn resolve_role_choice(reaction: Option<&str>) -> (r: Result<RoleChoice, SetupError>)
    ensures
        r == role_choice_spec(reply_view(reaction)),
{
    match reaction {
        None => Err(SetupError::Timeout),
        Some(e) => {
            if str_eq(e, "\u{1F195}") {
                Ok(RoleChoice::CreateNew)
            } else if str_eq(e, "\u{1F517}") {
                Ok(RoleChoice::UseExisting)
            } else {
                Err(SetupError::InvalidChoice)
            }
        }
    }
}

/// What resolving a role mention yields: a timeout aborts; otherwise the
/// trimmed text must read as a role mention or plain role ID.
pub open spec fn role_mention_spec(reply: Option<Seq<char>>) -> Result<u64, SetupError> {
    match reply {
        None => Err(SetupError::Timeout),
        Some(s) => match mention_id(trim_spaces(s)) {
            Some(id) => Ok(id),
            None => Err(SetupError::InvalidRole),
        },
    }
}

/// Resolves the admin's answer naming an existing role. `None` stands for a
/// timed-out wait.
pub fn resolve_role_mention(reply: Option<&str>) -> (r: Result<u64, SetupError>)
    ensures
        r == role_mention_spec(reply_view(reply)),
{
    match reply {
        None => Err(SetupError::Timeout),
        Some(s) => {
            let t = trim(s);
            match parse_discord_mention(t) {
                Some(id) => Ok(id),
                None => Err(SetupError::InvalidRole),
            }
        }
    }
}

} // verus!
