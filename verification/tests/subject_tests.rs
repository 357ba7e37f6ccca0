use ticket_engine::reset::{interpret_yes_no, reset_decision, ResetDecision};
use ticket_engine::subject::{
    add_subject, format_subject_list, process_subject_batch, remove_subject, subject_exists,
    validate_subject_name, BatchOutcome, Subject, SubjectAddError,
};
use ticket_engine::text::u64_to_string;
use ticket_engine::wizard::SetupError;

fn subjects() -> Vec<Subject> {
    vec![
        Subject { id: Some(1), name: "Payments".to_string(), channel_id: Some(42) },
        Subject { id: Some(2), name: "Bugs".to_string(), channel_id: None },
    ]
}

#[test]
fn test_validate_subject_name_bounds() {
    assert!(!validate_subject_name(""));
    assert!(validate_subject_name("a"));
    assert!(validate_subject_name(&"x".repeat(100)));
    assert!(!validate_subject_name(&"x".repeat(101)));
}

#[test]
fn test_add_subject_decisions() {
    let list = subjects();
    assert!(matches!(add_subject(&list, &"x".repeat(101), "7"), Err(SubjectAddError::TooLong)));
    assert!(matches!(add_subject(&list, "", "7"), Err(SubjectAddError::TooShort)));
    assert!(matches!(
        add_subject(&list, "Refunds", "not a channel"),
        Err(SubjectAddError::InvalidChannel)
    ));
    assert!(matches!(add_subject(&list, "Payments", "7"), Err(SubjectAddError::Duplicate)));
    let added = match add_subject(&list, "Refunds", "https://discord.com/channels/1/900") {
        Ok(s) => s,
        Err(_) => panic!("a fresh valid subject must be accepted"),
    };
    assert_eq!(added.name, "Refunds");
    assert_eq!(added.id, None);
    assert_eq!(added.channel_id, Some(900));
}

#[test]
fn test_add_subject_error_messages() {
    assert_eq!(SubjectAddError::TooLong.message(), "The subject is too long");
    assert_eq!(SubjectAddError::Duplicate.message(), "Subject already exists");
}

#[test]
fn test_subject_batch_outcomes() {
    let list = subjects();
    let entries = process_subject_batch(&list, " Refunds $ Bugs $Refunds$ ");
    assert_eq!(entries.len(), 4);
    assert_eq!(entries[0].name, "Refunds");
    assert_eq!(entries[0].outcome, BatchOutcome::Added);
    // already stored
    assert_eq!(entries[1].name, "Bugs");
    assert_eq!(entries[1].outcome, BatchOutcome::Duplicate);
    // accepted earlier in the same batch
    assert_eq!(entries[2].name, "Refunds");
    assert_eq!(entries[2].outcome, BatchOutcome::Duplicate);
    // the trailing separator leaves an empty piece
    assert_eq!(entries[3].name, "");
    assert_eq!(entries[3].outcome, BatchOutcome::BadLength);
}

#[test]
fn test_remove_subject() {
    let mut list = subjects();
    assert!(!remove_subject(&mut list, "Refunds"));
    assert_eq!(list.len(), 2);
    assert!(remove_subject(&mut list, "Payments"));
    assert_eq!(list.len(), 1);
    assert!(!subject_exists(&list, "Payments"));
    assert!(subject_exists(&list, "Bugs"));
}

#[test]
fn test_format_subject_list() {
    let list = subjects();
    assert_eq!(format_subject_list(&list), "- Payments - <#42>\n- Bugs");
    let empty: Vec<Subject> = Vec::new();
    assert_eq!(format_subject_list(&empty), "");
}

#[test]
fn test_u64_rendering() {
    assert_eq!(u64_to_string(0), "0");
    assert_eq!(u64_to_string(98765), "98765");
    assert_eq!(u64_to_string(u64::MAX), "18446744073709551615");
}

#[test]
fn test_reset_confirmation() {
    assert_eq!(reset_decision(Some("CONFIRM")), ResetDecision::Proceed);
    assert_eq!(reset_decision(Some("confirm")), ResetDecision::Cancelled);
    assert_eq!(reset_decision(Some("")), ResetDecision::Cancelled);
    assert_eq!(reset_decision(None), ResetDecision::TimedOut);
}

#[test]
fn test_yes_no_interpretation() {
    assert_eq!(interpret_yes_no(Some("\u{2705}")), Ok(true));
    assert_eq!(interpret_yes_no(Some("\u{274C}")), Ok(false));
    assert_eq!(interpret_yes_no(None), Err(SetupError::Timeout));
}
