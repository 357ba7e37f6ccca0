//! Per-server configuration: one row per guild, created at the first setup
//! attempt and filled in step by step by the setup wizard.
//!
//! A server is either fully configured (`setup_complete` with every
//! identifier present) or not ready to accept tickets; the wizard walks the
//! intermediate, partially-populated states.

use vstd::prelude::*;

verus! {

/// The engine's record of one server's configuration.
#[derive(Clone, Copy, Debug, PartialEq, Eq, Structural)]
pub struct ServerConfig {
    /// The guild this configuration belongs to.
    pub id: u64,
    /// Set only after every wizard step has succeeded; gates ticket intake.
    pub setup_complete: bool,
    /// The channel hosting the reaction message users react to.
    pub ticket_channel_id: Option<u64>,
    /// Informational log channel.
    pub log_channel_id: Option<u64>,
    /// Category holding channels of tickets nobody has claimed yet.
    pub unclaimed_category_id: Option<u64>,
    /// Category holding channels of claimed tickets.
    pub claimed_category_id: Option<u64>,
    /// The message users react to in order to open a ticket.
    pub ticket_message_id: Option<u64>,
    /// Role that lets its holders claim tickets.
    pub helper_role_id: Option<u64>,
    /// Role that marks moderators.
    pub moderator_role_id: Option<u64>,
}

impl ServerConfig {
    /// Every identifier the wizard collects is present.
    pub open spec fn fully_populated(self) -> bool {
        &&& self.ticket_channel_id is Some
        &&& self.log_channel_id is Some
        &&& self.unclaimed_category_id is Some
        &&& self.claimed_category_id is Some
        &&& self.ticket_message_id is Some
        &&& self.helper_role_id is Some
        &&& self.moderator_role_id is Some
    }

    /// A server marked complete has every identifier present; no
    /// partially-usable state is ever exposed to end users.
    pub open spec fn well_formed(self) -> bool {
        self.setup_complete ==> self.fully_populated()
    }

    /// A fresh, unconfigured record for guild `id`, as written at the first
    /// setup attempt.
    pub fn new(id: u64) -> (r: ServerConfig)
        ensures
            r.id == id,
            !r.setup_complete,
            r.ticket_channel_id is None,
            r.log_channel_id is None,
            r.unclaimed_category_id is None,
            r.claimed_category_id is None,
            r.ticket_message_id is None,
            r.helper_role_id is None,
            r.moderator_role_id is None,
            r.well_formed(),
    {
        ServerConfig {
            id,
            setup_complete: false,
            ticket_channel_id: None,
            log_channel_id: None,
            unclaimed_category_id: None,
            claimed_category_id: None,
            ticket_message_id: None,
            helper_role_id: None,
            moderator_role_id: None,
        }
    }

    /// Records the channel that will host the reaction message.
    pub fn set_ticket_channel(&mut self, channel_id: u64)
        requires
            !old(self).setup_complete,
        ensures
            *final(self) == (ServerConfig { ticket_channel_id: Some(channel_id), ..*old(self) }),
            final(self).well_formed(),
    {
        self.ticket_channel_id = Some(channel_id);
    }

    /// Records the log channel.
    pub fn set_log_channel(&mut self, channel_id: u64)
        requires
            !old(self).setup_complete,
        ensures
            *final(self) == (ServerConfig { log_channel_id: Some(channel_id), ..*old(self) }),
            final(self).well_formed(),
    {
        self.log_channel_id = Some(channel_id);
    }

    /// Records the two ticket categories the wizard created.
    pub fn set_categories(&mut self, unclaimed_id: u64, claimed_id: u64)
        requires
            !old(self).setup_complete,
        ensures
            *final(self) == (ServerConfig {
                unclaimed_category_id: Some(unclaimed_id),
                claimed_category_id: Some(claimed_id),
                ..*old(self)
            }),
            final(self).well_formed(),
    {
        self.unclaimed_category_id = Some(unclaimed_id);
        self.claimed_category_id = Some(claimed_id);
    }

    /// Records the helper role.
    pub fn set_helper_role(&mut self, role_id: u64)
        requires
            !old(self).setup_complete,
        ensures
            *final(self) == (ServerConfig { helper_role_id: Some(role_id), ..*old(self) }),
            final(self).well_formed(),
    {
        self.helper_role_id = Some(role_id);
    }

    /// Records the moderator role.
    pub fn set_moderator_role(&mut self, role_id: u64)
        requires
            !old(self).setup_complete,
        ensures
            *final(self) == (ServerConfig { moderator_role_id: Some(role_id), ..*old(self) }),
            final(self).well_formed(),
    {
        self.moderator_role_id = Some(role_id);
    }

    /// Records the posted reaction message.
    pub fn set_ticket_message(&mut self, message_id: u64)
        requires
            !old(self).setup_complete,
        ensures
            *final(self) == (ServerConfig { ticket_message_id: Some(message_id), ..*old(self) }),
            final(self).well_formed(),
    {
        self.ticket_message_id = Some(message_id);
    }

    /// Flips the server to configured. Only legal once every identifier is
    /// present, which keeps [`ServerConfig::well_formed`] an invariant.
    pub fn mark_complete(&mut self)
        requires
            old(self).fully_populated(),
        ensures
            *final(self) == (ServerConfig { setup_complete: true, ..*old(self) }),
            final(self).well_formed(),
    {
        self.setup_complete = true;
    }
}

} // verus!
