use ticket_engine::config::ServerConfig;
use ticket_engine::tickets::{claim, close, ClaimOutcome, CloseOutcome, RetentionPolicy, Ticket};

fn configured_server() -> ServerConfig {
    let mut c = ServerConfig::new(11);
    c.set_ticket_channel(100);
    c.set_log_channel(101);
    c.set_categories(200, 201);
    c.set_helper_role(300);
    c.set_moderator_role(301);
    c.set_ticket_message(400);
    c.mark_complete();
    c
}

fn some_ticket() -> Ticket {
    Ticket { channel_id: 555, server_id: 11, subject_id: Some(1), author_id: 777 }
}

#[test]
fn test_claim_without_helper_role_is_noop() {
    let config = configured_server();
    let outcome = claim(&config, false, Some(some_ticket()), 555);
    assert_eq!(outcome, ClaimOutcome::Ignore);
}

#[test]
fn test_claim_outside_ticket_channel_is_noop() {
    let config = configured_server();
    let outcome = claim(&config, true, None, 555);
    assert_eq!(outcome, ClaimOutcome::Ignore);
}

#[test]
fn test_claim_moves_channel_to_claimed_category() {
    let config = configured_server();
    let outcome = claim(&config, true, Some(some_ticket()), 555);
    assert_eq!(outcome, ClaimOutcome::Move { channel_id: 555, category_id: 201 });
}

#[test]
fn test_close_by_non_author_is_noop() {
    // helpers and moderators included: any caller that is not the author
    for caller in [1u64, 300, 301, 776, 778] {
        let outcome = close(Some(some_ticket()), caller, RetentionPolicy::MarkClosed);
        assert_eq!(outcome, CloseOutcome::Ignore);
    }
}

#[test]
fn test_close_by_author_closes() {
    let outcome = close(Some(some_ticket()), 777, RetentionPolicy::MarkClosed);
    assert_eq!(
        outcome,
        CloseOutcome::Close {
            notify_user_id: 777,
            channel_id: 555,
            retention: RetentionPolicy::MarkClosed,
        }
    );
}

#[test]
fn test_close_outside_ticket_channel_is_noop() {
    let outcome = close(None, 777, RetentionPolicy::HardDelete);
    assert_eq!(outcome, CloseOutcome::Ignore);
}
