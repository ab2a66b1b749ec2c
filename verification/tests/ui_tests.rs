use cyril_core::completer::{find_at_trigger, parse_file_references, FileCompleter};
use cyril_core::picker::{PickerAction, PickerOption, PickerState};
use cyril_core::tool_calls::{diff_summary, short_path};

fn opt(value: &str, active: bool) -> PickerOption {
    PickerOption { value: value.to_string(), label: value.to_string(), active }
}

#[test]
fn picker_preselects_active_option() {
    let picker = PickerState::new(
        "Model".to_string(),
        vec![opt("a", false), opt("b", true), opt("c", false)],
        PickerAction::SetModel,
    );
    assert_eq!(picker.selected, 1);
    assert_eq!(picker.selected_value(), Some("b"));
}

#[test]
fn picker_selection_wraps_both_ways() {
    let mut picker = PickerState::new(
        "Model".to_string(),
        vec![opt("a", false), opt("b", false), opt("c", false)],
        PickerAction::SetModel,
    );
    assert_eq!(picker.selected, 0);
    picker.select_prev();
    assert_eq!(picker.selected, 2);
    picker.select_next();
    assert_eq!(picker.selected, 0);
    picker.select_next();
    assert_eq!(picker.selected, 1);
    assert_eq!(picker.selected_value(), Some("b"));
}

#[test]
fn picker_on_empty_options_is_inert() {
    let mut picker = PickerState::new("Model".to_string(), Vec::new(), PickerAction::SetModel);
    picker.select_next();
    picker.select_prev();
    assert_eq!(picker.selected, 0);
    assert_eq!(picker.selected_value(), None);
}

#[test]
fn at_trigger_found_after_whitespace() {
    let lines = vec!["look at @src/ma".to_string()];
    let ctx = find_at_trigger(&lines, 0, 15).expect("trigger expected");
    assert_eq!(ctx.row, 0);
    assert_eq!(ctx.at_col, 8);
    assert_eq!(ctx.cursor_col, 15);
    assert_eq!(ctx.query, "src/ma");
}

#[test]
fn at_trigger_requires_word_boundary() {
    // An @ glued to a word is an email-like token, not a trigger.
    let lines = vec!["mail me user@example".to_string()];
    assert!(find_at_trigger(&lines, 0, 20).is_none());
}

#[test]
fn at_trigger_rejects_whitespace_in_query() {
    let lines = vec!["@src extra".to_string()];
    assert!(find_at_trigger(&lines, 0, 10).is_none());
    // Before the space the trigger is live.
    let ctx = find_at_trigger(&lines, 0, 4).expect("trigger expected");
    assert_eq!(ctx.query, "src");
}

#[test]
fn file_references_collects_known_files_once() {
    let files = vec!["src/main.rs".to_string(), "README.md".to_string()];
    let text = "see @src/main.rs and @missing.txt\nand @src/main.rs again, plus @README.md";
    let refs = parse_file_references(text, &files);
    assert_eq!(refs, vec!["src/main.rs".to_string(), "README.md".to_string()]);
}

#[test]
fn completer_ranks_and_limits_suggestions() {
    let mut completer = FileCompleter::new(".".to_string());
    completer.set_files(vec![
        "src/main.rs".to_string(),
        "src/lib.rs".to_string(),
        "docs/notes.md".to_string(),
    ]);
    assert!(completer.file_exists("src/lib.rs"));
    assert!(!completer.file_exists("src/other.rs"));

    let all = completer.suggestions("rs", 10);
    assert!(all.len() >= 2);
    assert!(all.iter().all(|s| s.path.contains("rs")));

    let capped = completer.suggestions("rs", 1);
    assert_eq!(capped.len(), 1);

    assert!(completer.suggestions("", 10).is_empty());
}

#[test]
fn short_path_keeps_last_two_components() {
    assert_eq!(short_path("a/b/c/d.rs"), "c/d.rs");
    assert_eq!(short_path("one/two"), "one/two");
    assert_eq!(short_path("single"), "single");
    assert_eq!(short_path("//doubled//slashes//x.txt"), "slashes/x.txt");
    assert_eq!(short_path(""), "");
}

#[test]
fn diff_summary_counts_changed_lines() {
    let old_text = "a\nb\nc\n";
    let new_text = "a\nB\nc\nd\n";
    let summary = diff_summary(old_text, new_text).expect("changes expected");
    assert_eq!(summary.added, 2);
    assert_eq!(summary.removed, 1);
}

#[test]
fn diff_summary_none_when_texts_equal() {
    assert!(diff_summary("same\n", "same\n").is_none());
}
