use spotter::config::{
    default_index_dirs, default_search_background, save, AiConfig, Config, UiConfig,
    WindowPosition,
};

/// Stands in for GDK's color parser: hex colors, `rgb(..)`/`rgba(..)` and a
/// few names are colors.
fn looks_like_color(value: &str) -> bool {
    let hex = value.len() > 1
        && value.starts_with('#')
        && value[1..].chars().all(|c| c.is_ascii_hexdigit())
        && matches!(value.len() - 1, 3 | 4 | 6 | 8);
    hex || (value.starts_with("rgb") && value.ends_with(')'))
        || value == "transparent"
        || value == "black"
        || value == "white"
}

#[test]
fn invalid_ui_values_fall_back_or_clamp() {
    let mut ui = UiConfig {
        position: "somewhere".to_string(),
        window_width: 100,
        ..UiConfig::default()
    };
    ui.colors.search_background = "not-a-color".to_string();
    ui.colors.title = "  #12345678  ".to_string();
    ui.sanitize(&looks_like_color);

    assert_eq!(ui.position, "top-left");
    assert_eq!(ui.window_width, 320);
    assert_eq!(ui.colors.search_background, default_search_background());
    assert_eq!(ui.colors.title, "#12345678");
}

#[test]
fn recent_search_limit_can_be_disabled_and_is_capped() {
    let mut config = Config {
        max_recent_searches: 51,
        ..Config::default()
    };
    config.sanitize(&looks_like_color);
    assert_eq!(config.max_recent_searches, 50);

    config.max_recent_searches = 0;
    config.sanitize(&looks_like_color);
    assert_eq!(config.max_recent_searches, 0);
}

#[test]
fn recent_item_limit_can_be_disabled_and_is_capped() {
    let mut config = Config {
        max_recent_items: 51,
        ..Config::default()
    };
    config.sanitize(&looks_like_color);
    assert_eq!(config.max_recent_items, 50);

    config.max_recent_items = 0;
    config.sanitize(&looks_like_color);
    assert_eq!(config.max_recent_items, 0);
}

#[test]
fn ai_config_sanitize_trims_base_url() {
    let mut ai = AiConfig {
        base_url: "http://localhost:11434/v1/".to_string(),
        ..AiConfig::default()
    };
    ai.sanitize();
    assert_eq!(ai.base_url, "http://localhost:11434/v1");

    let mut empty = AiConfig {
        base_url: "  ".to_string(),
        ..AiConfig::default()
    };
    empty.sanitize();
    assert_eq!(empty.base_url, "https://api.openai.com/v1");
}

#[test]
fn save_round_trips_a_sanitized_private_config() {
    let config = Config {
        max_recent_items: 99,
        index_dirs: Vec::new(),
        ui: UiConfig {
            window_width: 100,
            ..UiConfig::default()
        },
        ..Config::default()
    };

    let saved = save(&config, &looks_like_color);
    assert_eq!(saved.max_recent_items, 50);
    assert_eq!(saved.ui.window_width, 320);
    assert_eq!(saved.index_dirs, default_index_dirs());
    // Saving what was saved changes nothing more.
    let again = save(&saved, &looks_like_color);
    assert_eq!(again.max_recent_items, 50);
    assert_eq!(again.ui.window_width, 320);
    assert_eq!(again.index_dirs, saved.index_dirs);
}

#[test]
fn defaults_match_the_documented_values() {
    let config = Config::default();
    assert_eq!(config.max_results, 9);
    assert_eq!(config.max_recent_searches, 8);
    assert_eq!(config.max_recent_items, 8);
    assert_eq!(config.max_result_height, 420);
    assert_eq!(config.max_indexed_items, 60_000);
    assert_eq!(config.index_depth, 5);
    assert!(!config.include_path_binaries);
    assert!(!config.system_tray);
    assert_eq!(
        config.index_dirs,
        ["Desktop", "Documents", "Downloads", "Pictures", "Music", "Videos"]
    );
    assert_eq!(config.ui.position, "top-left");
    assert_eq!(config.ui.window_width, 720);
    assert_eq!(config.ui.search_height, 54);
    assert_eq!(config.ai.base_url, "https://api.openai.com/v1");
    assert_eq!(config.ai.model, "gpt-4o-mini");
    assert_eq!(config.ui.colors.shell_background, "rgba(28, 31, 36, 0.96)");
}

#[test]
fn sanitize_replaces_zero_and_small_values() {
    let mut config = Config {
        max_results: 0,
        max_result_height: 10,
        max_indexed_items: 0,
        index_depth: 0,
        ui: UiConfig {
            result_max_height: 50,
            x: 200_000,
            y: -200_000,
            shell_radius: 100,
            search_font_size: 1,
            ..UiConfig::default()
        },
        ..Config::default()
    };
    config.sanitize(&looks_like_color);
    assert_eq!(config.max_results, 9);
    assert_eq!(config.max_result_height, 120);
    assert_eq!(config.ui.result_max_height, 120);
    assert_eq!(config.max_indexed_items, 60_000);
    assert_eq!(config.index_depth, 5);
    assert_eq!(config.ui.x, 100_000);
    assert_eq!(config.ui.y, -100_000);
    assert_eq!(config.ui.shell_radius, 48);
    assert_eq!(config.ui.search_font_size, 12);
}

#[test]
fn blank_model_falls_back_and_key_resolution_prefers_the_config() {
    let mut ai = AiConfig {
        model: " ".to_string(),
        api_key: "  secret  ".to_string(),
        ..AiConfig::default()
    };
    ai.sanitize();
    assert_eq!(ai.model, "gpt-4o-mini");
    assert_eq!(ai.resolve_api_key(Some("env")), Some("secret".to_string()));

    let blank = AiConfig::default();
    assert_eq!(blank.resolve_api_key(Some("env-key")), Some("env-key".to_string()));
    assert_eq!(blank.resolve_api_key(Some("   ")), None);
    assert_eq!(blank.resolve_api_key(None), None);
}

#[test]
fn positions_parse_case_insensitively_and_round_trip() {
    assert_eq!(WindowPosition::parse("  Top-Right "), Some(WindowPosition::TopRight));
    assert_eq!(WindowPosition::parse("CENTER"), Some(WindowPosition::Center));
    assert_eq!(WindowPosition::parse("middle"), None);
    for p in [
        WindowPosition::TopLeft,
        WindowPosition::TopCenter,
        WindowPosition::TopRight,
        WindowPosition::CenterLeft,
        WindowPosition::Center,
        WindowPosition::CenterRight,
        WindowPosition::BottomLeft,
        WindowPosition::BottomCenter,
        WindowPosition::BottomRight,
        WindowPosition::Custom,
    ] {
        assert_eq!(WindowPosition::parse(p.normalized()), Some(p));
    }
}

#[test]
fn rejected_colors_fall_back_to_their_defaults() {
    let mut ui = UiConfig::default();
    ui.colors.icon = "bogus".to_string();
    ui.colors.subtitle = " #abc ".to_string();
    ui.sanitize(&looks_like_color);
    assert_eq!(ui.colors.icon, "#9fb7ff");
    assert_eq!(ui.colors.subtitle, "#abc");
}

#[test]
fn sanitizing_twice_keeps_colors_and_clean_endpoints() {
    let mut config = Config::default();
    config.ui.colors.title = "  #123456 ".to_string();
    config.ui.colors.icon = "no such color".to_string();
    config.ai.base_url = " https://example.test/v1// ".to_string();
    config.sanitize(&looks_like_color);
    let once = config.clone();
    config.sanitize(&looks_like_color);

    assert_eq!(once.ui.colors.title, "#123456");
    assert_eq!(once.ui.colors.icon, "#9fb7ff");
    assert_eq!(config.ui.colors.title, once.ui.colors.title);
    assert_eq!(config.ui.colors.icon, once.ui.colors.icon);
    assert_eq!(once.ai.base_url, "https://example.test/v1");
    assert_eq!(config.ai.base_url, once.ai.base_url);
}

#[test]
fn endpoint_with_space_before_slashes_changes_on_a_second_pass() {
    let mut ai = AiConfig {
        base_url: "a /".to_string(),
        ..AiConfig::default()
    };
    ai.sanitize();
    assert_eq!(ai.base_url, "a ");
    ai.sanitize();
    assert_eq!(ai.base_url, "a");
}
