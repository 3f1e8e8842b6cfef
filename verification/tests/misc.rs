use spotter::ai::{authorization, completion_text, completion_url, failure_message};
use spotter::config::{AiConfig, UiConfig};
use spotter::search::{
    ai_prompt_item, recent_search_item, recent_search_results, web_search_item, ItemKind,
    SearchItem, SearchResult,
};
use spotter::settings::{index_dirs_from_text, position_id, position_index, spin_usize};
use spotter::tray::{activate_event, menu_entries, tray_icon_name, tray_id, tray_title, Event, MenuEntry};
use spotter::ui::{
    activation, build_style, launch_plan, next_selection, result_icon, result_rows, Activation,
    LaunchError, LaunchPlan,
};

#[test]
fn activation_and_settings_menu_send_events() {
    assert_eq!(activate_event(), Event::Open);
    let mut menu = menu_entries();
    let MenuEntry::Item { label, event, .. } = menu.remove(1) else {
        panic!("Settings should be a standard tray menu item");
    };
    assert_eq!(label, "Settings");
    assert_eq!(event, Event::Settings);
}

#[test]
fn tray_identity_and_menu_layout() {
    assert_eq!(tray_id(), "spotter");
    assert_eq!(tray_title(), "Spotter");
    assert!(tray_icon_name().is_empty());
    let menu = menu_entries();
    assert_eq!(menu.len(), 4);
    assert_eq!(menu[2], MenuEntry::Separator);
    assert!(matches!(&menu[3], MenuEntry::Item { event: Event::Quit, .. }));
}

#[test]
fn completion_requests_target_the_chat_endpoint() {
    assert_eq!(
        completion_url("http://127.0.0.1:9/v1//"),
        "http://127.0.0.1:9/v1/chat/completions"
    );
    let ai = AiConfig {
        api_key: "test-key".to_string(),
        ..AiConfig::default()
    };
    assert_eq!(authorization(&ai, None), Some("Bearer test-key".to_string()));
    assert_eq!(authorization(&AiConfig::default(), Some("env")), Some("Bearer env".to_string()));
    assert_eq!(authorization(&AiConfig::default(), None), None);
    assert_eq!(completion_text(Some("  Hello from mock \n")), Some("Hello from mock".to_string()));
    assert_eq!(completion_text(None), None);
    assert_eq!(failure_message("timeout"), "AI request failed: timeout");
}

#[test]
fn settings_positions_and_directories() {
    assert_eq!(position_index("center"), 4);
    assert_eq!(position_index("nowhere"), 0);
    assert_eq!(position_id(9), "custom");
    assert_eq!(position_id(10), "top-left");
    assert_eq!(
        index_dirs_from_text("Desktop\n  Music  \n\n~/Code\r\n"),
        ["Desktop", "Music", "~/Code"]
    );
    assert_eq!(spin_usize(-3), 0);
    assert_eq!(spin_usize(7), 7);
}

fn result(item: SearchItem) -> SearchResult {
    SearchResult { item, score: 0 }
}

#[test]
fn result_rows_explain_empty_lists() {
    assert!(result_rows(&[], "  ", false).is_none());
    let indexing = result_rows(&[], "fire", true).unwrap();
    assert_eq!(indexing[0].title, "Indexing…");
    let none = result_rows(&[], "fire", false).unwrap();
    assert_eq!(none[0].title, "No results");
    assert_eq!(none[0].subtitle, "Keep typing or try another query");
    let rows = result_rows(&[result(web_search_item("x"))], "x", false).unwrap();
    assert_eq!(rows[0].icon, "⌕");
    assert_eq!(result_icon(ItemKind::Directory), "▣");
}

#[test]
fn activation_and_launching_depend_on_the_kind() {
    assert_eq!(activation(&ai_prompt_item("")), Activation::Ignore);
    assert_eq!(
        activation(&ai_prompt_item("why")),
        Activation::AskAi("why".to_string())
    );
    let web = web_search_item("x");
    assert_eq!(activation(&web), Activation::Launch);
    assert_eq!(
        launch_plan(&web),
        Ok(LaunchPlan::Open("https://www.google.com/search?q=x".to_string()))
    );
    let blank = SearchItem::new(
        "A".to_string(),
        String::new(),
        "  ".to_string(),
        ItemKind::Application,
        String::new(),
        None,
    );
    assert_eq!(launch_plan(&blank), Err(LaunchError::EmptyCommand));
    assert_eq!(launch_plan(&ai_prompt_item("q")), Ok(LaunchPlan::Nothing));
    assert_eq!(next_selection(0, -1), 0);
    assert_eq!(next_selection(2, 1), 3);
}

#[test]
fn style_sheet_uses_the_layout() {
    let css = build_style(&UiConfig::default());
    assert!(css.contains("border-radius: 42px;"));
    assert!(css.contains("background-color: rgba(28, 31, 36, 0.96);"));
    assert!(css.contains("font-size: 14px;"));
}

#[test]
fn empty_query_shows_recent_searches_newest_first() {
    let entries = vec!["files".to_string(), "settings".to_string(), "firefox".to_string()];
    let results = recent_search_results(&entries, 2);
    assert_eq!(results.len(), 2);
    assert_eq!(results[0].item.title, "files");
    assert_eq!(results[1].item.target, "settings");
    assert!(matches!(results[0].item.kind, ItemKind::RecentSearch));
    assert_eq!(recent_search_results(&entries, 10).len(), 3);
    assert!(recent_search_results(&entries, 0).is_empty());

    let rows = result_rows(&results, "", false).unwrap();
    assert_eq!(rows.len(), 2);
    assert_eq!(rows[0].icon, "\u{21b6}");
    assert_eq!(rows[0].subtitle, "Recent search");
}

#[test]
fn selecting_a_recent_search_restores_it() {
    let item = recent_search_item("firefox");
    assert_eq!(activation(&item), Activation::Restore("firefox".to_string()));
    assert_eq!(launch_plan(&item), Ok(LaunchPlan::Nothing));
    assert_eq!(result_icon(ItemKind::RecentSearch), "\u{21b6}");
}

#[test]
fn a_recorded_search_is_the_first_recent_result() {
    let mut history = spotter::history::RecentSearches::load(
        vec!["files".to_string(), "Firefox".to_string()],
        5,
    );
    assert!(history.record("  firefox "));
    let results = recent_search_results(history.entries(), 3);
    assert_eq!(results[0].item.target, "firefox");
    assert_eq!(results[1].item.target, "files");
    assert_eq!(results.len(), 2);
}
