use vshell::history::history_entry;
use vshell::history::history_listing;
use vshell::history::plan_history;
use vshell::history::HistoryAction;

fn words(parts: &[&str]) -> Vec<String> {
    parts.iter().map(|p| p.to_string()).collect()
}

#[test]
fn entries_count_from_the_end() {
    let lines = words(&["a", "b", "c"]);
    assert_eq!(history_entry(&lines, 1), Some("c".to_string()));
    assert_eq!(history_entry(&lines, 2), Some("b".to_string()));
    assert_eq!(history_entry(&lines, 3), Some("a".to_string()));
    assert_eq!(history_entry(&lines, 0), None);
    assert_eq!(history_entry(&lines, 4), None);
    assert_eq!(history_entry(&[], 1), None);
}

#[test]
fn listing_numbers_from_one() {
    let lines = words(&["a", "b", "c"]);
    assert_eq!(
        history_listing(&lines, None),
        vec![(1, "a".to_string()), (2, "b".to_string()), (3, "c".to_string())]
    );
}

#[test]
fn listing_the_last_two() {
    let lines = words(&["a", "b", "c"]);
    assert_eq!(
        history_listing(&lines, Some(2)),
        vec![(2, "b".to_string()), (3, "c".to_string())]
    );
}

#[test]
fn a_count_past_the_beginning_lists_everything() {
    let lines = words(&["a", "b"]);
    assert_eq!(
        history_listing(&lines, Some(9)),
        vec![(1, "a".to_string()), (2, "b".to_string())]
    );
}

#[test]
fn no_arguments_list_everything() {
    let lines = words(&["a"]);
    match plan_history(&[], &lines) {
        HistoryAction::List { entries } => assert_eq!(entries, vec![(1, "a".to_string())]),
        other => panic!("expected a listing, got {:?}", other),
    }
}

#[test]
fn a_count_lists_the_most_recent() {
    let lines = words(&["a", "b", "c"]);
    match plan_history(&words(&["2"]), &lines) {
        HistoryAction::List { entries } => {
            assert_eq!(entries, vec![(2, "b".to_string()), (3, "c".to_string())]);
        },
        other => panic!("expected a listing, got {:?}", other),
    }
}

#[test]
fn file_operations_name_their_file() {
    let lines = words(&["a"]);
    assert!(matches!(
        plan_history(&words(&["-r", "f"]), &lines),
        HistoryAction::ReadFrom { path } if path == "f"
    ));
    assert!(matches!(
        plan_history(&words(&["-w", "g"]), &lines),
        HistoryAction::WriteTo { path } if path == "g"
    ));
    assert!(matches!(
        plan_history(&words(&["-a", "h"]), &lines),
        HistoryAction::AppendTo { path } if path == "h"
    ));
}

#[test]
fn file_operations_without_a_file_do_nothing() {
    let lines = words(&["a"]);
    assert!(matches!(plan_history(&words(&["-r"]), &lines), HistoryAction::Nothing));
    assert!(matches!(plan_history(&words(&["-w"]), &lines), HistoryAction::Nothing));
    assert!(matches!(plan_history(&words(&["-a"]), &lines), HistoryAction::Nothing));
}

#[test]
fn anything_else_is_unknown() {
    let lines = words(&["a"]);
    assert!(matches!(
        plan_history(&words(&["bogus"]), &lines),
        HistoryAction::Unknown { arg } if arg == "bogus"
    ));
    assert!(matches!(
        plan_history(&words(&["-x"]), &lines),
        HistoryAction::Unknown { arg } if arg == "-x"
    ));
}
