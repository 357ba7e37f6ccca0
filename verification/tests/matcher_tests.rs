use ticket_engine::matcher::{match_subjects, with_other_option};
use ticket_engine::subject::Subject;

fn subject(id: u64, name: &str) -> Subject {
    Subject { id: Some(id), name: name.to_string(), channel_id: None }
}

#[test]
fn test_match_ranks_best_first() {
    let subjects = vec![subject(1, "Payments"), subject(2, "Account Access"), subject(3, "Bugs")];
    let matched = match_subjects(&subjects, "my payment failed", 5);
    assert!(!matched.is_empty());
    assert_eq!(matched[0].name, "Payments");
    assert_eq!(matched[0].id, Some(1));
}

#[test]
fn test_match_bounded_by_n() {
    let subjects = vec![
        subject(1, "alpha"),
        subject(2, "alphabet"),
        subject(3, "alpine"),
        subject(4, "algae"),
    ];
    let matched = match_subjects(&subjects, "al", 2);
    assert!(matched.len() <= 2);
    let with_other = with_other_option(matched);
    assert!(with_other.len() <= 3);
    assert_eq!(with_other.last().unwrap().name, "Other");
    assert_eq!(with_other.last().unwrap().id, None);
}

#[test]
fn test_match_excludes_zero_overlap() {
    let subjects = vec![subject(1, "Payments"), subject(2, "Bugs")];
    // no character of the query appears in any candidate
    let matched = match_subjects(&subjects, "zzz", 5);
    assert!(matched.is_empty());
}

#[test]
fn test_match_empty_candidate_list() {
    let subjects: Vec<Subject> = Vec::new();
    let matched = match_subjects(&subjects, "anything", 5);
    assert!(matched.is_empty());
    let with_other = with_other_option(matched);
    assert_eq!(with_other.len(), 1);
    assert_eq!(with_other[0].name, "Other");
}

#[test]
fn test_match_stable_on_equal_scores() {
    // identical names score identically; the stored order must be kept
    let subjects = vec![subject(7, "help"), subject(8, "help")];
    let matched = match_subjects(&subjects, "help", 5);
    assert_eq!(matched.len(), 2);
    assert_eq!(matched[0].id, Some(7));
    assert_eq!(matched[1].id, Some(8));
}
