use spotter::desktop::{command_item, filesystem_item, parse_desktop_item};
use spotter::search::{
    match_score, percent_encode, search, search_matches, web_search_item, ItemKind, SearchIndex,
};

fn score(tokens: &str, query: &str) -> Option<i64> {
    let terms: Vec<Vec<char>> = query
        .split_whitespace()
        .map(|term| term.chars().collect())
        .collect();
    let tokens: Vec<char> = tokens.chars().collect();
    let query: Vec<char> = query.chars().collect();
    match_score(&tokens, &query, &terms)
}

#[test]
fn desktop_entry_preserves_original_icon() {
    let item = parse_desktop_item(
        "[Desktop Entry]\nName=Example App\nComment=An example\nExec=example-app %U\nIcon=example-app\n",
    )
    .unwrap();

    assert!(matches!(item.kind, ItemKind::Application));
    assert_eq!(item.desktop_icon.as_deref(), Some("example-app"));
    assert_eq!(item.target, "example-app");

    let without_icon = parse_desktop_item("[Desktop Entry]\nName=No Icon\nExec=no-icon\n").unwrap();
    assert_eq!(without_icon.desktop_icon, None);
}

#[test]
fn prefix_matches() {
    assert!(score("firefox web browser", "fir").is_some());
}

#[test]
fn multi_word_matches_in_any_order() {
    assert!(score("firefox web browser", "browser fire").is_some());
}

#[test]
fn word_start_ranks_above_mid_word() {
    let start = score("firefox web browser", "fir").unwrap();
    let mid = score("aafirefox web browser", "fir").unwrap();
    assert!(start > mid, "start {start} mid {mid}");
}

#[test]
fn scattered_letters_are_no_match() {
    assert!(score("gnu image manipulation program", "gimp").is_none());
    assert!(score(
        "how to use graphic design to sell things and explain things",
        "how to cook rice"
    )
    .is_none());
}

#[test]
fn missing_term_is_no_match() {
    assert!(score("readme.txt /home/user/readme.txt", "readme zzz").is_none());
}

fn sample_index() -> SearchIndex {
    let mut index = SearchIndex::new();
    let mut primary = Vec::new();
    primary.push(
        parse_desktop_item(
            "[Desktop Entry]\nName=Firefox\nComment=Web Browser\nExec=firefox %u\nIcon=firefox\n",
        )
        .unwrap(),
    );
    primary.push(
        parse_desktop_item("[Desktop Entry]\nName=Files\nComment=Access and organize files\nExec=nautilus --new-window %U\n")
            .unwrap(),
    );
    primary.push(command_item("ls", "/usr/bin/ls"));
    primary.push(command_item("lsblk", "/usr/bin/lsblk"));
    primary.push(command_item("bash", "/usr/bin/bash"));
    index.publish_primary(primary);
    index.publish_files(vec![
        filesystem_item("Documents", "/home/user/Documents", true),
        filesystem_item("notes.txt", "/home/user/Documents/notes.txt", false),
    ]);
    index
}

#[test]
fn gibberish_query_falls_back_to_web_search() {
    let index = sample_index();

    let results = search(&index, "ls", 9);
    assert!(
        !matches!(results[0].item.kind, ItemKind::WebSearch),
        "real query `ls` should match indexed items, got web fallback"
    );

    for query in ["weather in tokyo", "how to cook rice", "asdkjqwe"] {
        let results = search(&index, query, 9);
        assert!(
            matches!(results[0].item.kind, ItemKind::WebSearch),
            "query `{query}` did not fall back to web search"
        );
    }
}

#[test]
fn incomplete_index_does_not_fall_back_to_web_search() {
    let mut index = SearchIndex::new();
    assert!(search(&index, "firefox", 9).is_empty());

    index.publish_files(Vec::new());
    let results = search(&index, "firefox", 9);
    assert!(matches!(results[0].item.kind, ItemKind::WebSearch));
}

#[test]
fn slash_query_becomes_ai_prompt() {
    let index = SearchIndex::new();
    let results = search(&index, "/what is Rust?", 9);
    assert_eq!(results.len(), 1);
    assert!(matches!(results[0].item.kind, ItemKind::AiPrompt));
    assert_eq!(results[0].item.target, "what is Rust?");

    let empty = search(&index, "/", 9);
    assert!(matches!(empty[0].item.kind, ItemKind::AiPrompt));
    assert_eq!(empty[0].item.target, "");
    assert_eq!(empty[0].item.title, "Ask AI");
    assert_eq!(results[0].item.title, "Ask AI: what is Rust?");
}

#[test]
fn web_search_item_encodes_query() {
    let item = web_search_item("weather in tokyo?");
    assert_eq!(
        item.target,
        "https://www.google.com/search?q=weather+in+tokyo%3F"
    );
    assert!(matches!(item.kind, ItemKind::WebSearch));
    assert_eq!(item.title, "Search Google for \"weather in tokyo?\"");
}

#[test]
fn percent_encoding_covers_utf8_and_reserved_bytes() {
    assert_eq!(percent_encode("a-b_c.d~e"), "a-b_c.d~e");
    assert_eq!(percent_encode("é&"), "%C3%A9%26");
}

#[test]
fn exact_scores_follow_the_formula() {
    // "web" starts a word at byte 8: 1000 - 8 + 500.
    assert_eq!(score("firefox web browser", "web"), Some(1492));
    // Two terms found together as the whole query earn 1000 more.
    assert_eq!(
        score("firefox web browser", "web browser"),
        Some(1492 + 1488 + 1000)
    );
    // A match after a non-ASCII letter is mid-word; offsets count bytes.
    assert_eq!(score("éfir", "fir"), Some(1000 - 2));
    // Offsets beyond 900 bytes cost at most 900.
    let long = format!("{}x", " ".repeat(950));
    assert_eq!(score(&long, "x"), Some(100 + 500));
}

#[test]
fn results_are_ranked_and_bounded() {
    let index = sample_index();
    let results = search(&index, "ls", 9);
    // Commands rank by score, then by shorter title.
    assert_eq!(results[0].item.title, "ls");
    assert_eq!(results[1].item.title, "lsblk");
    for pair in results.windows(2) {
        assert!(pair[0].score >= pair[1].score);
    }
    assert_eq!(search(&index, "ls", 1).len(), 1);
    assert!(search(&index, "   ", 9).is_empty());
    let apps = search(&index, "FIRE", 9);
    assert_eq!(apps[0].item.title, "Firefox");
    assert_eq!(apps[0].score, 1500 + 3000);
}

#[test]
fn the_index_drops_repeated_kind_and_target() {
    let mut index = SearchIndex::new();
    index.publish_primary(vec![
        command_item("ls", "/usr/bin/ls"),
        command_item("ls", "/usr/bin/ls"),
        command_item("ls", "/bin/ls"),
    ]);
    assert_eq!(index.items().len(), 2);
    assert!(!index.is_complete());
    index.publish_files(vec![
        filesystem_item("ls", "/usr/bin/ls", false),
        filesystem_item("ls", "/usr/bin/ls", false),
    ]);
    assert_eq!(index.items().len(), 3);
    assert!(index.is_complete());
}

#[test]
fn search_matches_uses_the_lowered_query_and_falls_back_to_the_typed_text() {
    let mut index = SearchIndex::new();
    index.publish_primary(vec![command_item("htop", "/usr/bin/htop")]);
    index.publish_files(Vec::new());

    let found = search_matches(&index, "HTOP", "htop", 5);
    assert_eq!(found.len(), 1);
    assert_eq!(found[0].item.title, "htop");

    let missing = search_matches(&index, "Weather", "weather", 5);
    assert_eq!(missing.len(), 1);
    assert_eq!(missing[0].item.title, "Search Google for \"Weather\"");
}

#[test]
fn web_fallback_only_when_nothing_matches() {
    let index = sample_index();
    assert!(search(&index, "ls", 0).is_empty());
    let none = search(&index, "asdkjqwe", 0);
    assert_eq!(none.len(), 1);
    assert!(matches!(none[0].item.kind, ItemKind::WebSearch));
}
