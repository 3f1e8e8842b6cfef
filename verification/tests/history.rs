use spotter::history::{clean_entries, HistoryError, RecentSearches};

#[test]
fn records_newest_first_and_moves_duplicates_to_the_front() {
    let mut history = RecentSearches::load(Vec::new(), 3);
    assert!(history.record("Firefox"));
    assert!(history.record("terminal"));
    assert!(history.record("firefox"));
    assert!(history.record("settings"));
    assert!(history.record("files"));

    assert_eq!(history.entries(), ["files", "settings", "firefox"]);
    let saved = history.to_json().unwrap();
    let reloaded = RecentSearches::from_json(&saved, 3).unwrap();
    assert_eq!(reloaded.entries(), history.entries());
}

#[test]
fn load_cleans_empty_and_duplicate_entries() {
    let stored = serde_json::to_vec(&vec![" Alpha ", "", "alpha", "Beta"]).unwrap();
    let history = RecentSearches::from_json(&stored, 5).unwrap();
    assert_eq!(history.entries(), ["Alpha", "Beta"]);
}

#[test]
fn zero_limit_disables_history() {
    let mut history = RecentSearches::load(Vec::new(), 0);
    let changed = history.record("ignored");

    assert!(history.entries().is_empty());
    assert!(!changed, "nothing is written when history is disabled");
}

#[test]
fn blank_queries_are_not_recorded() {
    let mut history = RecentSearches::empty(4);
    assert!(!history.record("   "));
    assert!(history.entries().is_empty());
    assert!(history.record("  Spaced  "));
    assert_eq!(history.entries(), ["Spaced"]);
    assert_eq!(history.limit(), 4);
}

#[test]
fn cleaning_keeps_the_first_spelling_and_the_limit() {
    let entries = vec![
        "Beta".to_string(),
        "BETA".to_string(),
        " gamma".to_string(),
        "delta".to_string(),
    ];
    assert_eq!(clean_entries(entries, 2), ["Beta", "gamma"]);
}

#[test]
fn unicode_case_is_folded_when_deduplicating() {
    let mut history = RecentSearches::empty(5);
    history.record("ÉCOLE");
    history.record("école");
    assert_eq!(history.entries(), ["école"]);
}

#[test]
fn stored_history_must_be_a_json_list_of_strings() {
    assert!(matches!(
        RecentSearches::from_json(b"{\"not\": \"a list\"}", 5),
        Err(HistoryError::Parse(_))
    ));
    assert!(matches!(RecentSearches::from_json(b"[1, 2]", 5), Err(HistoryError::Parse(_))));
    let history = RecentSearches::from_json(b"[\"one\", \"two\", \"three\"]", 2).unwrap();
    assert_eq!(history.entries(), ["one", "two"]);
    let written = String::from_utf8(history.to_json().unwrap()).unwrap();
    assert_eq!(written, "[\n  \"one\",\n  \"two\"\n]");
}
