use ticket_engine::config::ServerConfig;
use ticket_engine::dispatch::{qualify_reaction, ticket_emoji_text, ReactionEvent};
use ticket_engine::intake::{
    intake_start, intake_step, temp_ticket_channel_name, IntakeAction, IntakeContext, IntakeEvent,
    IntakeState,
};
use ticket_engine::subject::Subject;

fn configured_server() -> ServerConfig {
    let mut c = ServerConfig::new(42);
    c.set_ticket_channel(100);
    c.set_log_channel(101);
    c.set_categories(200, 201);
    c.set_helper_role(300);
    c.set_moderator_role(301);
    c.set_ticket_message(400);
    c.mark_complete();
    c
}

fn stored_subjects() -> Vec<Subject> {
    vec![
        Subject { id: Some(1), name: "Payments".to_string(), channel_id: None },
        Subject { id: Some(2), name: "Account Access".to_string(), channel_id: None },
        Subject { id: Some(3), name: "Bugs".to_string(), channel_id: None },
    ]
}

fn reaction(user_id: u64) -> ReactionEvent {
    ReactionEvent {
        guild_id: 42,
        channel_id: 100,
        message_id: 400,
        user_id,
        user_is_bot: false,
        emoji: ticket_emoji_text().to_string(),
    }
}

fn context() -> IntakeContext {
    IntakeContext {
        server_id: 42,
        author_id: 777,
        subjects: stored_subjects(),
        unclaimed_category_id: 200,
    }
}

/// Runs one intake flow to completion, from the reaction to the persisted
/// row, and checks a second reaction opens a second, independent flow.
#[test]
fn test_intake_end_to_end() {
    let config = configured_server();

    // the reaction qualifies and names the unclaimed category
    let category = qualify_reaction(&config, &reaction(777));
    assert_eq!(category, Some(200));

    let ctx = context();
    let name = temp_ticket_channel_name("alice");
    let (state, actions) = intake_start(&ctx, name.clone());
    assert!(matches!(state, IntakeState::AwaitingChannel));
    assert_eq!(actions.len(), 1);
    assert!(matches!(
        &actions[0],
        IntakeAction::CreateChannel { category_id: 200, name: n } if *n == name
    ));

    // the platform created channel 555 in the unclaimed category
    let (state, actions) = intake_step(&ctx, state, IntakeEvent::ChannelCreated {
        channel_id: 555,
    });
    assert!(matches!(state, IntakeState::AwaitingSubjectText { channel_id: 555 }));
    assert!(matches!(
        actions[0],
        IntakeAction::SendTicketOpenedDm { user_id: 777, channel_id: 555 }
    ));
    assert!(matches!(actions[1], IntakeAction::PostWelcome { channel_id: 555 }));

    // the requester types their subject; "Payments" must rank first
    let (state, actions) = intake_step(&ctx, state, IntakeEvent::SubjectReply {
        text: "my payment failed".to_string(),
    });
    assert!(matches!(actions[0], IntakeAction::PostChoicePrompt { channel_id: 555 }));
    let options = match &state {
        IntakeState::AwaitingSubjectChoice { channel_id: 555, options } => options.clone(),
        _ => panic!("the flow should be awaiting the subject choice"),
    };
    assert_eq!(options[0].name, "Payments");
    assert_eq!(options.last().unwrap().name, "Other");
    assert_eq!(options.last().unwrap().id, None);

    // the requester picks "Payments"
    let (state, actions) = intake_step(&ctx, state, IntakeEvent::SubjectChoice { index: 0 });
    let ticket = match state {
        IntakeState::Completed { ticket } => ticket,
        _ => panic!("flow should have completed"),
    };
    assert_eq!(ticket.channel_id, 555);
    assert_eq!(ticket.server_id, 42);
    assert_eq!(ticket.subject_id, Some(1));
    assert_eq!(ticket.author_id, 777);
    assert!(matches!(
        &actions[0],
        IntakeAction::RenameChannel { channel_id: 555, name } if name.ends_with("-Payments")
    ));
    assert!(matches!(actions[1], IntakeAction::PersistTicket { ticket: t } if t == ticket));
    assert!(matches!(
        &actions[2],
        IntakeAction::PostConfirmation { channel_id: 555, subject_name } if subject_name == "Payments"
    ));
    assert!(matches!(actions[3], IntakeAction::RemoveTriggerReaction));
    // the channel is renamed but never moved: it stays unclaimed
    assert!(!actions.iter().any(|a| matches!(a, IntakeAction::DeleteChannel { .. })));

    // reacting again opens a second, independent flow with its own channel
    assert_eq!(qualify_reaction(&config, &reaction(777)), Some(200));
    let (state2, _) = intake_start(&ctx, temp_ticket_channel_name("alice"));
    let (state2, _) = intake_step(&ctx, state2, IntakeEvent::ChannelCreated { channel_id: 556 });
    assert!(matches!(state2, IntakeState::AwaitingSubjectText { channel_id: 556 }));
}

/// A flow that times out at the subject-reply wait deletes the provisional
/// channel, notifies the requester, and never persists a ticket row — even
/// if further events arrive.
#[test]
fn test_reply_timeout_leaves_no_ticket() {
    let ctx = context();
    let (state, _) = intake_start(&ctx, temp_ticket_channel_name("bob"));
    let (state, _) = intake_step(&ctx, state, IntakeEvent::ChannelCreated { channel_id: 900 });

    let (state, actions) = intake_step(&ctx, state, IntakeEvent::SubjectReplyTimeout);
    assert!(matches!(state, IntakeState::Aborted));
    assert!(matches!(actions[0], IntakeAction::DeleteChannel { channel_id: 900 }));
    assert!(matches!(actions[1], IntakeAction::SendTimeoutNotice { user_id: 777 }));
    assert!(!actions.iter().any(|a| matches!(a, IntakeAction::PersistTicket { .. })));

    // whatever comes afterwards, an aborted flow emits nothing
    let (state, actions) = intake_step(&ctx, state, IntakeEvent::SubjectReply {
        text: "late".to_string(),
    });
    assert!(matches!(state, IntakeState::Aborted));
    assert!(actions.is_empty());
    let (_, actions) = intake_step(&ctx, state, IntakeEvent::SubjectChoice { index: 0 });
    assert!(actions.is_empty());
}

/// The choice wait timing out gets the same uniform cleanup.
#[test]
fn test_choice_timeout_deletes_channel() {
    let ctx = context();
    let (state, _) = intake_start(&ctx, temp_ticket_channel_name("bob"));
    let (state, _) = intake_step(&ctx, state, IntakeEvent::ChannelCreated { channel_id: 901 });
    let (state, _) = intake_step(&ctx, state, IntakeEvent::SubjectReply {
        text: "payments".to_string(),
    });
    let (state, actions) = intake_step(&ctx, state, IntakeEvent::SubjectChoiceTimeout);
    assert!(matches!(state, IntakeState::Aborted));
    assert!(matches!(actions[0], IntakeAction::DeleteChannel { channel_id: 901 }));
    assert!(!actions.iter().any(|a| matches!(a, IntakeAction::PersistTicket { .. })));
}

#[test]
fn test_dispatcher_drops_noise() {
    let config = configured_server();
    // a bot's reaction
    let mut ev = reaction(1);
    ev.user_is_bot = true;
    assert_eq!(qualify_reaction(&config, &ev), None);
    // the wrong emoji
    let mut ev = reaction(1);
    ev.emoji = "\u{1F389}".to_string();
    assert_eq!(qualify_reaction(&config, &ev), None);
    // the wrong message
    let mut ev = reaction(1);
    ev.message_id = 999;
    assert_eq!(qualify_reaction(&config, &ev), None);
    // the wrong channel
    let mut ev = reaction(1);
    ev.channel_id = 999;
    assert_eq!(qualify_reaction(&config, &ev), None);
    // a server that is not set up yet
    let unconfigured = ServerConfig::new(42);
    assert_eq!(qualify_reaction(&unconfigured, &reaction(1)), None);
}

#[test]
fn test_channel_name_carries_requester_and_stamp() {
    let name = temp_ticket_channel_name("alice");
    let prefix = format!("{}-alice-", ticket_emoji_text());
    assert!(name.starts_with(&prefix));
    // the trailing timestamp comes from the clock; it is non-empty here
    assert!(name.len() > prefix.len());
}
