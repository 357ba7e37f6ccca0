use ticket_engine::config::ServerConfig;
use ticket_engine::wizard::{
    resolve_channel_reply, resolve_role_choice, resolve_role_mention, validate_channel_kind,
    wizard_next, RoleChoice, SetupError, WizardStep,
};

/// Drives the whole wizard the way the command loop would: perform each
/// prescribed step, persist its result, ask again — and short-circuit once
/// the server is configured.
#[test]
fn test_wizard_end_to_end() {
    let mut config = ServerConfig::new(42);
    let mut mutating_calls = 0;

    // step (a): the admin supplies the ticket-request channel
    assert_eq!(wizard_next(&config), WizardStep::AskTicketChannel);
    let id = resolve_channel_reply(Some("123456789012345678")).unwrap();
    let id = validate_channel_kind(id, true).unwrap();
    config.set_ticket_channel(id);
    mutating_calls += 1;

    // step (b): the log channel
    assert_eq!(wizard_next(&config), WizardStep::AskLogChannel);
    let id = resolve_channel_reply(Some("223456789012345678")).unwrap();
    let id = validate_channel_kind(id, true).unwrap();
    config.set_log_channel(id);
    mutating_calls += 1;

    // step (c): the two categories come back from the platform
    assert_eq!(wizard_next(&config), WizardStep::CreateCategories);
    config.set_categories(7001, 7002);
    mutating_calls += 1;

    // steps (d), (e): the admin picks "create new" for both roles
    assert_eq!(wizard_next(&config), WizardStep::ResolveHelperRole);
    assert_eq!(resolve_role_choice(Some("\u{1F195}")), Ok(RoleChoice::CreateNew));
    config.set_helper_role(8001);
    mutating_calls += 1;

    assert_eq!(wizard_next(&config), WizardStep::ResolveModeratorRole);
    assert_eq!(resolve_role_choice(Some("\u{1F195}")), Ok(RoleChoice::CreateNew));
    config.set_moderator_role(8002);
    mutating_calls += 1;

    // step (f): the reaction message is posted in the ticket channel
    assert_eq!(
        wizard_next(&config),
        WizardStep::PostReactionMessage { channel_id: 123456789012345678 }
    );
    config.set_ticket_message(9001);
    mutating_calls += 1;

    // step (g)
    assert_eq!(wizard_next(&config), WizardStep::MarkComplete);
    config.mark_complete();
    mutating_calls += 1;

    assert!(config.setup_complete);
    assert_eq!(config.ticket_channel_id, Some(123456789012345678));
    assert_eq!(config.log_channel_id, Some(223456789012345678));
    assert_eq!(config.unclaimed_category_id, Some(7001));
    assert_eq!(config.claimed_category_id, Some(7002));
    assert_eq!(config.helper_role_id, Some(8001));
    assert_eq!(config.moderator_role_id, Some(8002));
    assert_eq!(config.ticket_message_id, Some(9001));
    assert_eq!(mutating_calls, 7);

    // a subsequent `setup` call short-circuits immediately: zero mutating
    // calls are prescribed
    assert_eq!(wizard_next(&config), WizardStep::AlreadyComplete);
}

#[test]
fn test_wizard_resumes_after_abort() {
    let mut config = ServerConfig::new(42);
    config.set_ticket_channel(100);
    // the log-channel wait timed out: the run aborts, the stored state stays
    assert_eq!(resolve_channel_reply(None), Err(SetupError::Timeout));
    // a later run resumes at the log channel, not from the start
    assert_eq!(wizard_next(&config), WizardStep::AskLogChannel);
}

#[test]
fn test_channel_reply_validation() {
    assert_eq!(
        resolve_channel_reply(Some("https://discord.com/channels/1/555")),
        Ok(555)
    );
    assert_eq!(resolve_channel_reply(Some("  777  ")), Ok(777));
    assert_eq!(resolve_channel_reply(Some("nonsense")), Err(SetupError::InvalidChannel));
    assert_eq!(validate_channel_kind(5, false), Err(SetupError::NotTextChannel));
}

#[test]
fn test_role_resolution() {
    assert_eq!(resolve_role_choice(None), Err(SetupError::Timeout));
    assert_eq!(resolve_role_choice(Some("\u{1F517}")), Ok(RoleChoice::UseExisting));
    assert_eq!(resolve_role_choice(Some("\u{1F389}")), Err(SetupError::InvalidChoice));
    assert_eq!(resolve_role_mention(Some("<@&314159>")), Ok(314159));
    assert_eq!(resolve_role_mention(Some(" 314159 ")), Ok(314159));
    assert_eq!(resolve_role_mention(Some("no role here")), Err(SetupError::InvalidRole));
    assert_eq!(resolve_role_mention(None), Err(SetupError::Timeout));
}

#[test]
fn test_setup_error_messages() {
    assert_eq!(SetupError::Timeout.message(), "Server setup timed out, please try again");
    assert_eq!(SetupError::InvalidChannel.message(), "Invalid channel ID");
    assert_eq!(SetupError::NotTextChannel.message(), "Channel must be a text channel");
}
