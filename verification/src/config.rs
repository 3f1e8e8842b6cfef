//! Launcher configuration: defaults and the sanitizing that keeps every
//! value within the range the interface supports.

use vstd::prelude::*;
use crate::text::{
    ascii_lowercase_spec, chars_eq, is_trimmed, is_whitespace_spec, lemma_trim_is_trimmed,
    lemma_trim_of_trimmed, owned, to_chars, trim, trim_spec,
};

verus! {

const DEFAULT_MAX_RESULTS: usize = 9;
const DEFAULT_MAX_RECENT_SEARCHES: usize = 8;
const DEFAULT_MAX_RECENT_ITEMS: usize = 8;
const DEFAULT_MAX_INDEXED_ITEMS: usize = 60_000;
const DEFAULT_INDEX_DEPTH: usize = 5;
const DEFAULT_WINDOW_WIDTH: i32 = 720;
const DEFAULT_MAX_RESULT_HEIGHT: i32 = 420;
const DEFAULT_SHELL_MARGIN: i32 = 24;
const DEFAULT_SHELL_PADDING: i32 = 18;
const DEFAULT_SHELL_RADIUS: i32 = 18;
const DEFAULT_SEARCH_HEIGHT: i32 = 54;
const DEFAULT_SEARCH_RADIUS: i32 = 12;
const DEFAULT_SEARCH_FONT_SIZE: i32 = 24;
const DEFAULT_RESULT_MARGIN_TOP: i32 = 12;
const DEFAULT_RESULT_ROW_PADDING_Y: i32 = 10;
const DEFAULT_RESULT_ROW_PADDING_X: i32 = 14;
const DEFAULT_RESULT_ROW_RADIUS: i32 = 10;
const DEFAULT_TITLE_FONT_SIZE: i32 = 16;
const DEFAULT_SUBTITLE_FONT_SIZE: i32 = 12;
const DEFAULT_ICON_FONT_SIZE: i32 = 20;

/// The most recent searches or items that are kept.
pub const RECENT_LIMIT_CAP: usize = 50;
/// The least height of the result pane.
pub const MIN_RESULT_HEIGHT: i32 = 120;

/// Settings of the AI assistant.
#[derive(Clone, Debug)]
pub struct AiConfig {
    pub base_url: String,
    pub api_key: String,
    pub model: String,
}

/// Interface colors (CSS color values).
#[derive(Clone, Debug)]
pub struct UiColors {
    pub window_background: String,
    pub shell_background: String,
    pub shell_border: String,
    pub search_background: String,
    pub search_text: String,
    pub results_background: String,
    pub row_background: String,
    pub row_selected_background: String,
    pub icon: String,
    pub title: String,
    pub subtitle: String,
}

/// Interface layout and placement.
#[derive(Clone, Debug)]
pub struct UiConfig {
    pub position: String,
    pub x: i32,
    pub y: i32,
    pub window_width: i32,
    pub result_max_height: i32,
    pub shell_margin: i32,
    pub shell_padding: i32,
    pub shell_radius: i32,
    pub search_height: i32,
    pub search_radius: i32,
    pub search_font_size: i32,
    pub result_margin_top: i32,
    pub result_row_padding_y: i32,
    pub result_row_padding_x: i32,
    pub result_row_radius: i32,
    pub title_font_size: i32,
    pub subtitle_font_size: i32,
    pub icon_font_size: i32,
    pub colors: UiColors,
}

/// The launcher configuration.
#[derive(Clone, Debug)]
pub struct Config {
    pub max_results: usize,
    pub max_recent_searches: usize,
    pub max_recent_items: usize,
    pub max_result_height: i32,
    pub max_indexed_items: usize,
    pub index_depth: usize,
    pub include_hidden: bool,
    pub include_path_binaries: bool,
    pub system_tray: bool,
    pub index_dirs: Vec<String>,
    pub ai: AiConfig,
    pub ui: UiConfig,
}

/// Where the launcher window is placed.
#[derive(Clone, Copy, Debug, PartialEq, Eq, Structural)]
pub enum WindowPosition {
    TopLeft,
    TopCenter,
    TopRight,
    CenterLeft,
    Center,
    CenterRight,
    BottomLeft,
    BottomCenter,
    BottomRight,
    Custom,
}

/// The name of each position.
pub open spec fn position_name(p: WindowPosition) -> Seq<char> {
    match p {
        WindowPosition::TopLeft => "top-left"@,
        WindowPosition::TopCenter => "top-center"@,
        WindowPosition::TopRight => "top-right"@,
        WindowPosition::CenterLeft => "center-left"@,
        WindowPosition::Center => "center"@,
        WindowPosition::CenterRight => "center-right"@,
        WindowPosition::BottomLeft => "bottom-left"@,
        WindowPosition::BottomCenter => "bottom-center"@,
        WindowPosition::BottomRight => "bottom-right"@,
        WindowPosition::Custom => "custom"@,
    }
}

/// The position named by `value` (ignoring surrounding whitespace and ASCII
/// case), if any.
pub open spec fn parse_position_spec(value: Seq<char>) -> Option<WindowPosition> {
    let t = ascii_lowercase_spec(trim_spec(value));
    if t == "top-left"@ {
        Some(WindowPosition::TopLeft)
    } else if t == "top-center"@ {
        Some(WindowPosition::TopCenter)
    } else if t == "top-right"@ {
        Some(WindowPosition::TopRight)
    } else if t == "center-left"@ {
        Some(WindowPosition::CenterLeft)
    } else if t == "center"@ {
        Some(WindowPosition::Center)
    } else if t == "center-right"@ {
        Some(WindowPosition::CenterRight)
    } else if t == "bottom-left"@ {
        Some(WindowPosition::BottomLeft)
    } else if t == "bottom-center"@ {
        Some(WindowPosition::BottomCenter)
    } else if t == "bottom-right"@ {
        Some(WindowPosition::BottomRight)
    } else if t == "custom"@ {
        Some(WindowPosition::Custom)
    } else {
        None
    }
}

/// `s` with ASCII letters lowered.
fn ascii_lowercase(s: &[char]) -> (r: Vec<char>)
    ensures
        r@ == ascii_lowercase_spec(s@),
{
    let mut out: Vec<char> = Vec::new();
    let mut i: usize = 0;
    while i < s.len()
        invariant
            i <= s@.len(),
            out@ == ascii_lowercase_spec(s@.take(i as int)),
        decreases s@.len() - i,
    {
        let c = s[i];
        let l = if 'A' <= c && c <= 'Z' {
            ((c as u32) + 32) as u8 as char
        } else {
            c
        };
        proof {
            if 'A' <= c && c <= 'Z' {
                assert(((c as u32) + 32) as u8 as char == crate::text::ascii_lower_char(c));
            }
        }
        out.push(l);
        assert(ascii_lowercase_spec(s@.take(i + 1)) =~= ascii_lowercase_spec(s@.take(i as int)).push(
            crate::text::ascii_lower_char(c),
        ));
        i = i + 1;
    }
    assert(s@.take(s@.len() as int) =~= s@);
    out
}

impl WindowPosition {
    /// The position named by `value`, ignoring surrounding whitespace and
    /// ASCII case.
    pub fn parse(value: &str) -> (r: Option<Self>)
        ensures
            r == parse_position_spec(value@),
    {
        let t = ascii_lowercase(to_chars(trim(value).as_str()).as_slice());
        if chars_eq(t.as_slice(), to_chars("top-left").as_slice()) {
            Some(WindowPosition::TopLeft)
        } else if chars_eq(t.as_slice(), to_chars("top-center").as_slice()) {
            Some(WindowPosition::TopCenter)
        } else if chars_eq(t.as_slice(), to_chars("top-right").as_slice()) {
            Some(WindowPosition::TopRight)
        } else if chars_eq(t.as_slice(), to_chars("center-left").as_slice()) {
            Some(WindowPosition::CenterLeft)
        } else if chars_eq(t.as_slice(), to_chars("center").as_slice()) {
            Some(WindowPosition::Center)
        } else if chars_eq(t.as_slice(), to_chars("center-right").as_slice()) {
            Some(WindowPosition::CenterRight)
        } else if chars_eq(t.as_slice(), to_chars("bottom-left").as_slice()) {
            Some(WindowPosition::BottomLeft)
        } else if chars_eq(t.as_slice(), to_chars("bottom-center").as_slice()) {
            Some(WindowPosition::BottomCenter)
        } else if chars_eq(t.as_slice(), to_chars("bottom-right").as_slice()) {
            Some(WindowPosition::BottomRight)
        } else if chars_eq(t.as_slice(), to_chars("custom").as_slice()) {
            Some(WindowPosition::Custom)
        } else {
            None
        }
    }

    /// The canonical name of the position.
    pub fn normalized(self) -> (r: &'static str)
        ensures
            r@ == position_name(self),
    {
        match self {
            WindowPosition::TopLeft => "top-left",
            WindowPosition::TopCenter => "top-center",
            WindowPosition::TopRight => "top-right",
            WindowPosition::CenterLeft => "center-left",
            WindowPosition::Center => "center",
            WindowPosition::CenterRight => "center-right",
            WindowPosition::BottomLeft => "bottom-left",
            WindowPosition::BottomCenter => "bottom-center",
            WindowPosition::BottomRight => "bottom-right",
            WindowPosition::Custom => "custom",
        }
    }
}

/// The value `v` limited to `[lo, hi]`.
pub open spec fn clamp_spec(v: int, lo: int, hi: int) -> int {
    if v < lo {
        lo
    } else if v > hi {
        hi
    } else {
        v
    }
}

fn clamp(v: i32, lo: i32, hi: i32) -> (r: i32)
    requires
        lo <= hi,
    ensures
        r == clamp_spec(v as int, lo as int, hi as int),
{
    if v < lo {
        lo
    } else if v > hi {
        hi
    } else {
        v
    }
}

/// The default AI endpoint.
pub fn default_ai_base_url() -> (r: String)
    ensures
        r@ == "https://api.openai.com/v1"@,
{
    owned("https://api.openai.com/v1")
}

/// The default AI model.
pub fn default_ai_model() -> (r: String)
    ensures
        r@ == "gpt-4o-mini"@,
{
    owned("gpt-4o-mini")
}

/// The default number of results shown.
pub fn default_max_results() -> (r: usize)
    ensures
        r == 9,
{
    DEFAULT_MAX_RESULTS
}

/// The default number of recent searches kept.
pub fn default_max_recent_searches() -> (r: usize)
    ensures
        r == 8,
{
    DEFAULT_MAX_RECENT_SEARCHES
}

/// The default number of recent items kept.
pub fn default_max_recent_items() -> (r: usize)
    ensures
        r == 8,
{
    DEFAULT_MAX_RECENT_ITEMS
}

/// The default number of filesystem entries indexed per directory.
pub fn default_max_indexed_items() -> (r: usize)
    ensures
        r == 60_000,
{
    DEFAULT_MAX_INDEXED_ITEMS
}

/// The default depth of directory indexing.
pub fn default_index_depth() -> (r: usize)
    ensures
        r == 5,
{
    DEFAULT_INDEX_DEPTH
}

/// The directories indexed by default (relative to the home directory).
pub open spec fn default_index_dirs_spec() -> Seq<Seq<char>> {
    seq!["Desktop"@, "Documents"@, "Downloads"@, "Pictures"@, "Music"@, "Videos"@]
}

/// The views of a sequence of strings.
pub open spec fn strings_view(s: Seq<String>) -> Seq<Seq<char>> {
    s.map_values(|e: String| e@)
}

/// The directories indexed by default (relative to the home directory).
pub fn default_index_dirs() -> (r: Vec<String>)
    ensures
        strings_view(r@) == default_index_dirs_spec(),
{
    let mut r: Vec<String> = Vec::new();
    r.push(owned("Desktop"));
    r.push(owned("Documents"));
    r.push(owned("Downloads"));
    r.push(owned("Pictures"));
    r.push(owned("Music"));
    r.push(owned("Videos"));
    assert(strings_view(r@) =~= default_index_dirs_spec());
    r
}

/// The default window position.
pub fn default_position() -> (r: String)
    ensures
        r@ == "top-left"@,
{
    owned("top-left")
}

/// The default `window_width`.
pub fn default_window_width() -> (r: i32)
    ensures
        r == 720,
{
    DEFAULT_WINDOW_WIDTH
}

/// The default `result_max_height`.
pub fn default_max_result_height() -> (r: i32)
    ensures
        r == 420,
{
    DEFAULT_MAX_RESULT_HEIGHT
}

/// The default `shell_margin`.
pub fn default_shell_margin() -> (r: i32)
    ensures
        r == 24,
{
    DEFAULT_SHELL_MARGIN
}

/// The default `shell_padding`.
pub fn default_shell_padding() -> (r: i32)
    ensures
        r == 18,
{
    DEFAULT_SHELL_PADDING
}

/// The default `shell_radius`.
pub fn default_shell_radius() -> (r: i32)
    ensures
        r == 18,
{
    DEFAULT_SHELL_RADIUS
}

/// The default `search_height`.
pub fn default_search_height() -> (r: i32)
    ensures
        r == 54,
{
    DEFAULT_SEARCH_HEIGHT
}

/// The default `search_radius`.
pub fn default_search_radius() -> (r: i32)
    ensures
        r == 12,
{
    DEFAULT_SEARCH_RADIUS
}

/// The default `search_font_size`.
pub fn default_search_font_size() -> (r: i32)
    ensures
        r == 24,
{
    DEFAULT_SEARCH_FONT_SIZE
}

/// The default `result_margin_top`.
pub fn default_result_margin_top() -> (r: i32)
    ensures
        r == 12,
{
    DEFAULT_RESULT_MARGIN_TOP
}

/// The default `result_row_padding_y`.
pub fn default_result_row_padding_y() -> (r: i32)
    ensures
        r == 10,
{
    DEFAULT_RESULT_ROW_PADDING_Y
}

/// The default `result_row_padding_x`.
pub fn default_result_row_padding_x() -> (r: i32)
    ensures
        r == 14,
{
    DEFAULT_RESULT_ROW_PADDING_X
}

/// The default `result_row_radius`.
pub fn default_result_row_radius() -> (r: i32)
    ensures
        r == 10,
{
    DEFAULT_RESULT_ROW_RADIUS
}

/// The default `title_font_size`.
pub fn default_title_font_size() -> (r: i32)
    ensures
        r == 16,
{
    DEFAULT_TITLE_FONT_SIZE
}

/// The default `subtitle_font_size`.
pub fn default_subtitle_font_size() -> (r: i32)
    ensures
        r == 12,
{
    DEFAULT_SUBTITLE_FONT_SIZE
}

/// The default `icon_font_size`.
pub fn default_icon_font_size() -> (r: i32)
    ensures
        r == 20,
{
    DEFAULT_ICON_FONT_SIZE
}

/// The default `window_background` color.
pub fn default_window_background() -> (r: String)
    ensures
        r@ == "transparent"@,
{
    owned("transparent")
}

/// The default `shell_background` color.
pub fn default_shell_background() -> (r: String)
    ensures
        r@ == "rgba(28, 31, 36, 0.96)"@,
{
    owned("rgba(28, 31, 36, 0.96)")
}

/// The default `shell_border` color.
pub fn default_shell_border() -> (r: String)
    ensures
        r@ == "rgba(255, 255, 255, 0.14)"@,
{
    owned("rgba(255, 255, 255, 0.14)")
}

/// The default `search_background` color.
pub fn default_search_background() -> (r: String)
    ensures
        r@ == "rgba(255, 255, 255, 0.1)"@,
{
    owned("rgba(255, 255, 255, 0.1)")
}

/// The default `search_text` color.
pub fn default_search_text() -> (r: String)
    ensures
        r@ == "#f5f7fa"@,
{
    owned("#f5f7fa")
}

/// The default `results_background` color.
pub fn default_results_background() -> (r: String)
    ensures
        r@ == "transparent"@,
{
    owned("transparent")
}

/// The default `row_background` color.
pub fn default_row_background() -> (r: String)
    ensures
        r@ == "transparent"@,
{
    owned("transparent")
}

/// The default `row_selected_background` color.
pub fn default_row_selected_background() -> (r: String)
    ensures
        r@ == "rgba(108, 160, 255, 0.28)"@,
{
    owned("rgba(108, 160, 255, 0.28)")
}

/// The default `icon` color.
pub fn default_icon_color() -> (r: String)
    ensures
        r@ == "#9fb7ff"@,
{
    owned("#9fb7ff")
}

/// The default `title` color.
pub fn default_title_color() -> (r: String)
    ensures
        r@ == "#f5f7fa"@,
{
    owned("#f5f7fa")
}

/// The default `subtitle` color.
pub fn default_subtitle_color() -> (r: String)
    ensures
        r@ == "#aeb6c2"@,
{
    owned("#aeb6c2")
}

/// Whether `a` holds the default AI settings.
pub open spec fn is_default_ai(a: AiConfig) -> bool {
    &&& a.base_url@ == "https://api.openai.com/v1"@
    &&& a.api_key@ == Seq::<char>::empty()
    &&& a.model@ == "gpt-4o-mini"@
}

/// Whether `c` holds the default colors.
pub open spec fn is_default_colors(c: UiColors) -> bool {
    &&& c.window_background@ == "transparent"@
    &&& c.shell_background@ == "rgba(28, 31, 36, 0.96)"@
    &&& c.shell_border@ == "rgba(255, 255, 255, 0.14)"@
    &&& c.search_background@ == "rgba(255, 255, 255, 0.1)"@
    &&& c.search_text@ == "#f5f7fa"@
    &&& c.results_background@ == "transparent"@
    &&& c.row_background@ == "transparent"@
    &&& c.row_selected_background@ == "rgba(108, 160, 255, 0.28)"@
    &&& c.icon@ == "#9fb7ff"@
    &&& c.title@ == "#f5f7fa"@
    &&& c.subtitle@ == "#aeb6c2"@
}

/// Whether `u` holds the default layout.
pub open spec fn is_default_ui(u: UiConfig) -> bool {
    &&& u.position@ == "top-left"@
    &&& u.x == 0
    &&& u.y == 0
    &&& u.window_width == 720
    &&& u.result_max_height == 420
    &&& u.shell_margin == 24
    &&& u.shell_padding == 18
    &&& u.shell_radius == 18
    &&& u.search_height == 54
    &&& u.search_radius == 12
    &&& u.search_font_size == 24
    &&& u.result_margin_top == 12
    &&& u.result_row_padding_y == 10
    &&& u.result_row_padding_x == 14
    &&& u.result_row_radius == 10
    &&& u.title_font_size == 16
    &&& u.subtitle_font_size == 12
    &&& u.icon_font_size == 20
    &&& is_default_colors(u.colors)
}

/// Whether `c` is the default configuration.
pub open spec fn is_default_config(c: Config) -> bool {
    &&& c.max_results == 9
    &&& c.max_recent_searches == 8
    &&& c.max_recent_items == 8
    &&& c.max_result_height == 420
    &&& c.max_indexed_items == 60_000
    &&& c.index_depth == 5
    &&& !c.include_hidden
    &&& !c.include_path_binaries
    &&& !c.system_tray
    &&& strings_view(c.index_dirs@) == default_index_dirs_spec()
    &&& is_default_ai(c.ai)
    &&& is_default_ui(c.ui)
}

impl Default for AiConfig {
    fn default() -> (r: Self)
        ensures
            is_default_ai(r),
    {
        AiConfig { base_url: default_ai_base_url(), api_key: String::new(), model: default_ai_model() }
    }
}

impl Default for UiColors {
    fn default() -> (r: Self)
        ensures
            is_default_colors(r),
    {
        UiColors {
            window_background: default_window_background(),
            shell_background: default_shell_background(),
            shell_border: default_shell_border(),
            search_background: default_search_background(),
            search_text: default_search_text(),
            results_background: default_results_background(),
            row_background: default_row_background(),
            row_selected_background: default_row_selected_background(),
            icon: default_icon_color(),
            title: default_title_color(),
            subtitle: default_subtitle_color(),
        }
    }
}

impl Default for UiConfig {
    fn default() -> (r: Self)
        ensures
            is_default_ui(r),
    {
        UiConfig {
            position: default_position(),
            x: 0,
            y: 0,
            window_width: default_window_width(),
            result_max_height: default_max_result_height(),
            shell_margin: default_shell_margin(),
            shell_padding: default_shell_padding(),
            shell_radius: default_shell_radius(),
            search_height: default_search_height(),
            search_radius: default_search_radius(),
            search_font_size: default_search_font_size(),
            result_margin_top: default_result_margin_top(),
            result_row_padding_y: default_result_row_padding_y(),
            result_row_padding_x: default_result_row_padding_x(),
            result_row_radius: default_result_row_radius(),
            title_font_size: default_title_font_size(),
            subtitle_font_size: default_subtitle_font_size(),
            icon_font_size: default_icon_font_size(),
            colors: UiColors::default(),
        }
    }
}

impl Default for Config {
    fn default() -> (r: Self)
        ensures
            is_default_config(r),
    {
        Config {
            max_results: default_max_results(),
            max_recent_searches: default_max_recent_searches(),
            max_recent_items: default_max_recent_items(),
            max_result_height: default_max_result_height(),
            max_indexed_items: default_max_indexed_items(),
            index_depth: default_index_depth(),
            include_hidden: false,
            include_path_binaries: false,
            system_tray: false,
            index_dirs: default_index_dirs(),
            ai: AiConfig::default(),
            ui: UiConfig::default(),
        }
    }
}

/// Whether the color checker `check` accepted (`ok`) the text `t`.
pub open spec fn color_check<F: Fn(&str) -> bool>(check: F, t: Seq<char>, ok: bool) -> bool {
    exists|a: &str| a@ == t && call_ensures(check, (a,), ok)
}

/// Whether a color sanitized from `old` to `new` (with fallback `fallback`)
/// kept the trimmed value that `check` accepted or fell back when it did not.
pub open spec fn color_sanitized<F: Fn(&str) -> bool>(
    check: F,
    old: Seq<char>,
    new: Seq<char>,
    fallback: Seq<char>,
) -> bool {
    let t = trim_spec(old);
    ||| new == t && color_check(check, t, true)
    ||| new == fallback && color_check(check, t, false)
}

/// Keeps a CSS color that `is_color` accepts (trimmed), or replaces it by
/// `fallback`.
pub fn sanitize_css_color<F: Fn(&str) -> bool>(value: &mut String, fallback: String, is_color: &F)
    requires
        forall|a: &str| is_color.requires((a,)),
    ensures
        color_sanitized(*is_color, old(value)@, final(value)@, fallback@),
{
    let trimmed = trim(value.as_str());
    let ok = is_color(trimmed.as_str());
    if ok {
        *value = trimmed;
    } else {
        *value = fallback;
    }
}

/// Whether the colors `new` are `old` sanitized with `check`.
pub open spec fn colors_sanitized<F: Fn(&str) -> bool>(check: F, old: UiColors, new: UiColors) -> bool {
    &&& color_sanitized(check, old.window_background@, new.window_background@, "transparent"@)
    &&& color_sanitized(check, old.shell_background@, new.shell_background@, "rgba(28, 31, 36, 0.96)"@)
    &&& color_sanitized(check, old.shell_border@, new.shell_border@, "rgba(255, 255, 255, 0.14)"@)
    &&& color_sanitized(check, old.search_background@, new.search_background@, "rgba(255, 255, 255, 0.1)"@)
    &&& color_sanitized(check, old.search_text@, new.search_text@, "#f5f7fa"@)
    &&& color_sanitized(check, old.results_background@, new.results_background@, "transparent"@)
    &&& color_sanitized(check, old.row_background@, new.row_background@, "transparent"@)
    &&& color_sanitized(check, old.row_selected_background@, new.row_selected_background@, "rgba(108, 160, 255, 0.28)"@)
    &&& color_sanitized(check, old.icon@, new.icon@, "#9fb7ff"@)
    &&& color_sanitized(check, old.title@, new.title@, "#f5f7fa"@)
    &&& color_sanitized(check, old.subtitle@, new.subtitle@, "#aeb6c2"@)
}

impl UiColors {
    /// Trims every color, replacing those that `is_color` rejects by their
    /// default.
    pub fn sanitize<F: Fn(&str) -> bool>(&mut self, is_color: &F)
        requires
            forall|a: &str| is_color.requires((a,)),
        ensures
            colors_sanitized(*is_color, *old(self), *final(self)),
    {
        sanitize_css_color(&mut self.window_background, default_window_background(), is_color);
        sanitize_css_color(&mut self.shell_background, default_shell_background(), is_color);
        sanitize_css_color(&mut self.shell_border, default_shell_border(), is_color);
        sanitize_css_color(&mut self.search_background, default_search_background(), is_color);
        sanitize_css_color(&mut self.search_text, default_search_text(), is_color);
        sanitize_css_color(&mut self.results_background, default_results_background(), is_color);
        sanitize_css_color(&mut self.row_background, default_row_background(), is_color);
        sanitize_css_color(&mut self.row_selected_background, default_row_selected_background(), is_color);
        sanitize_css_color(&mut self.icon, default_icon_color(), is_color);
        sanitize_css_color(&mut self.title, default_title_color(), is_color);
        sanitize_css_color(&mut self.subtitle, default_subtitle_color(), is_color);
    }
}

/// Whether the layout `new` is `old` sanitized with `check`, where `old`
/// had the result height `result_max_height`.
pub open spec fn ui_sanitized<F: Fn(&str) -> bool>(
    check: F,
    old: UiConfig,
    result_max_height: i32,
    new: UiConfig,
) -> bool {
    &&& new.position@ == position_name(
        match parse_position_spec(old.position@) {
            Some(p) => p,
            None => WindowPosition::TopLeft,
        },
    )
    &&& new.x == clamp_spec(old.x as int, -100_000, 100_000)
    &&& new.y == clamp_spec(old.y as int, -100_000, 100_000)
    &&& new.window_width == clamp_spec(old.window_width as int, 320, 3840)
    &&& new.result_max_height == clamp_spec(result_max_height as int, 120, 2160)
    &&& new.shell_margin == clamp_spec(old.shell_margin as int, 0, 96)
    &&& new.shell_padding == clamp_spec(old.shell_padding as int, 0, 96)
    &&& new.shell_radius == clamp_spec(old.shell_radius as int, 0, 48)
    &&& new.search_height == clamp_spec(old.search_height as int, 36, 120)
    &&& new.search_radius == clamp_spec(old.search_radius as int, 0, 48)
    &&& new.search_font_size == clamp_spec(old.search_font_size as int, 12, 48)
    &&& new.result_margin_top == clamp_spec(old.result_margin_top as int, 0, 64)
    &&& new.result_row_padding_y == clamp_spec(old.result_row_padding_y as int, 2, 48)
    &&& new.result_row_padding_x == clamp_spec(old.result_row_padding_x as int, 2, 48)
    &&& new.result_row_radius == clamp_spec(old.result_row_radius as int, 0, 32)
    &&& new.title_font_size == clamp_spec(old.title_font_size as int, 10, 36)
    &&& new.subtitle_font_size == clamp_spec(old.subtitle_font_size as int, 8, 28)
    &&& new.icon_font_size == clamp_spec(old.icon_font_size as int, 10, 36)
    &&& colors_sanitized(check, old.colors, new.colors)
}

impl UiConfig {
    /// Normalizes the position (unknown ones become top-left), clamps every
    /// size to its supported range and sanitizes the colors.
    pub fn sanitize<F: Fn(&str) -> bool>(&mut self, is_color: &F)
        requires
            forall|a: &str| is_color.requires((a,)),
        ensures
            ui_sanitized(*is_color, *old(self), old(self).result_max_height, *final(self)),
    {
        let position = match WindowPosition::parse(self.position.as_str()) {
            Some(p) => p,
            None => WindowPosition::TopLeft,
        };
        self.position = owned(position.normalized());
        self.x = clamp(self.x, -100_000, 100_000);
        self.y = clamp(self.y, -100_000, 100_000);
        self.window_width = clamp(self.window_width, 320, 3840);
        self.result_max_height = clamp(self.result_max_height, 120, 2160);
        self.shell_margin = clamp(self.shell_margin, 0, 96);
        self.shell_padding = clamp(self.shell_padding, 0, 96);
        self.shell_radius = clamp(self.shell_radius, 0, 48);
        self.search_height = clamp(self.search_height, 36, 120);
        self.search_radius = clamp(self.search_radius, 0, 48);
        self.search_font_size = clamp(self.search_font_size, 12, 48);
        self.result_margin_top = clamp(self.result_margin_top, 0, 64);
        self.result_row_padding_y = clamp(self.result_row_padding_y, 2, 48);
        self.result_row_padding_x = clamp(self.result_row_padding_x, 2, 48);
        self.result_row_radius = clamp(self.result_row_radius, 0, 32);
        self.title_font_size = clamp(self.title_font_size, 10, 36);
        self.subtitle_font_size = clamp(self.subtitle_font_size, 8, 28);
        self.icon_font_size = clamp(self.icon_font_size, 10, 36);
        self.colors.sanitize(is_color);
    }
}

/// `s` without its trailing `/` characters.
pub open spec fn trim_trailing_slashes(s: Seq<char>) -> Seq<char>
    decreases s.len(),
{
    if s.len() > 0 && s.last() == '/' {
        trim_trailing_slashes(s.drop_last())
    } else {
        s
    }
}

/// `s` without its trailing `/` characters.
pub(crate) fn strip_trailing_slashes(s: &str) -> (r: String)
    ensures
        r@ == trim_trailing_slashes(s@),
{
    let v = to_chars(s);
    let mut n = v.len();
    assert(v@.take(v@.len() as int) =~= v@);
    while n > 0 && v[n - 1] == '/'
        invariant
            n <= v@.len(),
            trim_trailing_slashes(v@) == trim_trailing_slashes(v@.take(n as int)),
        decreases n,
    {
        assert(v@.take(n as int).drop_last() =~= v@.take(n - 1));
        n = n - 1;
    }
    let w = crate::text::copy_range(v.as_slice(), 0, n);
    assert(w@ =~= v@.take(n as int));
    crate::text::from_chars(w.as_slice())
}

/// Whether the AI settings `new` are `old` sanitized.
pub open spec fn ai_sanitized(old: AiConfig, new: AiConfig) -> bool {
    let base = if trim_spec(old.base_url@).len() == 0 {
        "https://api.openai.com/v1"@
    } else {
        old.base_url@
    };
    &&& new.base_url@ == trim_trailing_slashes(trim_spec(base))
    &&& new.api_key == old.api_key
    &&& new.model@ == if trim_spec(old.model@).len() == 0 {
        "gpt-4o-mini"@
    } else {
        old.model@
    }
}

impl AiConfig {
    /// Falls back to the default endpoint and model when they are blank, and
    /// trims the endpoint and its trailing slashes.
    pub fn sanitize(&mut self)
        ensures
            ai_sanitized(*old(self), *final(self)),
    {
        if to_chars(trim(self.base_url.as_str()).as_str()).len() == 0 {
            self.base_url = default_ai_base_url();
        }
        let trimmed = trim(self.base_url.as_str());
        self.base_url = strip_trailing_slashes(trimmed.as_str());
        if to_chars(trim(self.model.as_str()).as_str()).len() == 0 {
            self.model = default_ai_model();
        }
    }

    /// The API key to send: the configured one (trimmed) when it is not
    /// blank, else `env_key` (the `OPENAI_API_KEY` variable) when that is
    /// not blank.
    pub fn resolve_api_key(&self, env_key: Option<&str>) -> (r: Option<String>)
        ensures
            trim_spec(self.api_key@).len() > 0 ==> (r matches Some(k) && k@ == trim_spec(
                self.api_key@,
            )),
            trim_spec(self.api_key@).len() == 0 ==> match env_key {
                Some(e) => if trim_spec(e@).len() > 0 {
                    (r matches Some(k) && k@ == e@)
                } else {
                    r is None
                },
                None => r is None,
            },
    {
        let key = trim(self.api_key.as_str());
        if to_chars(key.as_str()).len() > 0 {
            return Some(key);
        }
        match env_key {
            Some(e) => if to_chars(trim(e).as_str()).len() > 0 {
                Some(owned(e))
            } else {
                None
            },
            None => None,
        }
    }
}

/// Whether the configuration `new` is `old` sanitized with `check`.
pub open spec fn config_sanitized<F: Fn(&str) -> bool>(check: F, old: Config, new: Config) -> bool {
    let height = if old.max_result_height < MIN_RESULT_HEIGHT {
        MIN_RESULT_HEIGHT
    } else {
        old.max_result_height
    };
    &&& new.max_results == if old.max_results == 0 {
        9
    } else {
        old.max_results
    }
    &&& new.max_recent_searches == if old.max_recent_searches > 50 {
        50
    } else {
        old.max_recent_searches
    }
    &&& new.max_recent_items == if old.max_recent_items > 50 {
        50
    } else {
        old.max_recent_items
    }
    &&& new.max_result_height == height
    &&& new.max_indexed_items == if old.max_indexed_items == 0 {
        60_000
    } else {
        old.max_indexed_items
    }
    &&& new.index_depth == if old.index_depth == 0 {
        5
    } else {
        old.index_depth
    }
    &&& new.include_hidden == old.include_hidden
    &&& new.include_path_binaries == old.include_path_binaries
    &&& new.system_tray == old.system_tray
    &&& strings_view(new.index_dirs@) == if old.index_dirs@.len() == 0 {
        default_index_dirs_spec()
    } else {
        strings_view(old.index_dirs@)
    }
    &&& ai_sanitized(old.ai, new.ai)
    &&& ui_sanitized(
        check,
        old.ui,
        if old.ui.result_max_height < MIN_RESULT_HEIGHT {
            height
        } else {
            old.ui.result_max_height
        },
        new.ui,
    )
}

impl Config {
    /// Replaces unusable values by their defaults and limits every value to
    /// its supported range; `is_color` decides which colors are valid.
    pub fn sanitize<F: Fn(&str) -> bool>(&mut self, is_color: &F)
        requires
            forall|a: &str| is_color.requires((a,)),
        ensures
            config_sanitized(*is_color, *old(self), *final(self)),
    {
        if self.max_results == 0 {
            self.max_results = DEFAULT_MAX_RESULTS;
        }
        if self.max_recent_searches > RECENT_LIMIT_CAP {
            self.max_recent_searches = RECENT_LIMIT_CAP;
        }
        if self.max_recent_items > RECENT_LIMIT_CAP {
            self.max_recent_items = RECENT_LIMIT_CAP;
        }
        if self.max_result_height < MIN_RESULT_HEIGHT {
            self.max_result_height = MIN_RESULT_HEIGHT;
        }
        if self.ui.result_max_height < MIN_RESULT_HEIGHT {
            self.ui.result_max_height = self.max_result_height;
        }
        if self.max_indexed_items == 0 {
            self.max_indexed_items = DEFAULT_MAX_INDEXED_ITEMS;
        }
        if self.index_depth == 0 {
            self.index_depth = DEFAULT_INDEX_DEPTH;
        }
        if self.index_dirs.len() == 0 {
            self.index_dirs = default_index_dirs();
        }
        self.ai.sanitize();
        self.ui.sanitize(is_color);
    }
}

proof fn lemma_trim_plain(s: Seq<char>)
    requires
        forall|i: int| 0 <= i < s.len() ==> !is_whitespace_spec(#[trigger] s[i]),
    ensures
        trim_spec(s) == s,
{
    if s.len() > 0 {
        assert(!is_whitespace_spec(s[0]));
        assert(!is_whitespace_spec(s[s.len() - 1]));
    }
}

proof fn lemma_lower_plain(s: Seq<char>)
    requires
        forall|i: int| 0 <= i < s.len() ==> !('A' <= #[trigger] s[i] && s[i] <= 'Z'),
    ensures
        ascii_lowercase_spec(s) == s,
{
    assert(ascii_lowercase_spec(s) =~= s);
}

/// Parsing the name of a position gives back that position.
pub proof fn parse_normalized_round_trip(p: WindowPosition)
    ensures
        parse_position_spec(position_name(p)) == Some(p),
{
    reveal_strlit("top-left");
    reveal_strlit("top-center");
    reveal_strlit("top-right");
    reveal_strlit("center-left");
    reveal_strlit("center");
    reveal_strlit("center-right");
    reveal_strlit("bottom-left");
    reveal_strlit("bottom-center");
    reveal_strlit("bottom-right");
    reveal_strlit("custom");
    let s = position_name(p);
    lemma_trim_plain(s);
    lemma_lower_plain(s);
}

/// A copy of a list of strings.
fn copy_strings(v: &Vec<String>) -> (r: Vec<String>)
    ensures
        r@ == v@,
{
    let mut r: Vec<String> = Vec::new();
    let mut i: usize = 0;
    while i < v.len()
        invariant
            i <= v@.len(),
            r@ == v@.take(i as int),
        decreases v@.len() - i,
    {
        r.push(v[i].clone());
        assert(r@ =~= v@.take(i + 1));
        i = i + 1;
    }
    assert(v@.take(v@.len() as int) =~= v@);
    r
}

impl AiConfig {
    /// A copy of these settings.
    pub fn duplicate(&self) -> (r: Self)
        ensures
            r == *self,
    {
        AiConfig {
            base_url: self.base_url.clone(),
            api_key: self.api_key.clone(),
            model: self.model.clone(),
        }
    }
}

impl UiColors {
    /// A copy of these colors.
    pub fn duplicate(&self) -> (r: Self)
        ensures
            r == *self,
    {
        UiColors {
            window_background: self.window_background.clone(),
            shell_background: self.shell_background.clone(),
            shell_border: self.shell_border.clone(),
            search_background: self.search_background.clone(),
            search_text: self.search_text.clone(),
            results_background: self.results_background.clone(),
            row_background: self.row_background.clone(),
            row_selected_background: self.row_selected_background.clone(),
            icon: self.icon.clone(),
            title: self.title.clone(),
            subtitle: self.subtitle.clone(),
        }
    }
}

impl UiConfig {
    /// A copy of this layout.
    pub fn duplicate(&self) -> (r: Self)
        ensures
            r == *self,
    {
        UiConfig {
            position: self.position.clone(),
            x: self.x,
            y: self.y,
            window_width: self.window_width,
            result_max_height: self.result_max_height,
            shell_margin: self.shell_margin,
            shell_padding: self.shell_padding,
            shell_radius: self.shell_radius,
            search_height: self.search_height,
            search_radius: self.search_radius,
            search_font_size: self.search_font_size,
            result_margin_top: self.result_margin_top,
            result_row_padding_y: self.result_row_padding_y,
            result_row_padding_x: self.result_row_padding_x,
            result_row_radius: self.result_row_radius,
            title_font_size: self.title_font_size,
            subtitle_font_size: self.subtitle_font_size,
            icon_font_size: self.icon_font_size,
            colors: self.colors.duplicate(),
        }
    }
}

impl Config {
    /// A copy of this configuration.
    pub fn duplicate(&self) -> (r: Self)
        ensures
            r.max_results == self.max_results,
            r.max_recent_searches == self.max_recent_searches,
            r.max_recent_items == self.max_recent_items,
            r.max_result_height == self.max_result_height,
            r.max_indexed_items == self.max_indexed_items,
            r.index_depth == self.index_depth,
            r.include_hidden == self.include_hidden,
            r.include_path_binaries == self.include_path_binaries,
            r.system_tray == self.system_tray,
            r.index_dirs@ == self.index_dirs@,
            r.ai == self.ai,
            r.ui == self.ui,
    {
        Config {
            max_results: self.max_results,
            max_recent_searches: self.max_recent_searches,
            max_recent_items: self.max_recent_items,
            max_result_height: self.max_result_height,
            max_indexed_items: self.max_indexed_items,
            index_depth: self.index_depth,
            include_hidden: self.include_hidden,
            include_path_binaries: self.include_path_binaries,
            system_tray: self.system_tray,
            index_dirs: copy_strings(&self.index_dirs),
            ai: self.ai.duplicate(),
            ui: self.ui.duplicate(),
        }
    }
}

/// The configuration as it is written to disk: a sanitized copy of
/// `config` (the file itself is written by the application).
pub fn save<F: Fn(&str) -> bool>(config: &Config, is_color: &F) -> (r: Config)
    requires
        forall|a: &str| is_color.requires((a,)),
    ensures
        config_sanitized(*is_color, *config, r),
{
    let mut copy = config.duplicate();
    copy.sanitize(is_color);
    copy
}

proof fn lemma_strip_slashes_idempotent(s: Seq<char>)
    ensures
        trim_trailing_slashes(trim_trailing_slashes(s)) == trim_trailing_slashes(s),
    decreases s.len(),
{
    if s.len() > 0 && s.last() == '/' {
        lemma_strip_slashes_idempotent(s.drop_last());
    }
}

/// Sanitizing an already sanitized configuration changes none of its
/// numbers, flags, directories, position, model, key or layout, nor its
/// endpoint when that has no surrounding whitespace and is not empty
/// (stripping slashes can uncover whitespace, or leave nothing, which the
/// next pass trims or replaces). The colors are covered by
/// `sanitized_colors_are_stable`.
pub proof fn sanitize_is_stable<F: Fn(&str) -> bool, G: Fn(&str) -> bool>(
    check: F,
    check2: G,
    c0: Config,
    c1: Config,
    c2: Config,
)
    requires
        config_sanitized(check, c0, c1),
        config_sanitized(check2, c1, c2),
    ensures
        c2.max_results == c1.max_results,
        c2.max_recent_searches == c1.max_recent_searches,
        c2.max_recent_items == c1.max_recent_items,
        c2.max_result_height == c1.max_result_height,
        c2.max_indexed_items == c1.max_indexed_items,
        c2.index_depth == c1.index_depth,
        c2.include_hidden == c1.include_hidden,
        c2.include_path_binaries == c1.include_path_binaries,
        c2.system_tray == c1.system_tray,
        strings_view(c2.index_dirs@) == strings_view(c1.index_dirs@),
        c2.ai.model@ == c1.ai.model@,
        c2.ai.api_key == c1.ai.api_key,
        c2.ui.position@ == c1.ui.position@,
        c2.ui.x == c1.ui.x,
        c2.ui.y == c1.ui.y,
        c2.ui.window_width == c1.ui.window_width,
        c2.ui.result_max_height == c1.ui.result_max_height,
        c2.ui.shell_margin == c1.ui.shell_margin,
        c2.ui.shell_padding == c1.ui.shell_padding,
        c2.ui.shell_radius == c1.ui.shell_radius,
        c2.ui.search_height == c1.ui.search_height,
        c2.ui.search_radius == c1.ui.search_radius,
        c2.ui.search_font_size == c1.ui.search_font_size,
        c2.ui.result_margin_top == c1.ui.result_margin_top,
        c2.ui.result_row_padding_y == c1.ui.result_row_padding_y,
        c2.ui.result_row_padding_x == c1.ui.result_row_padding_x,
        c2.ui.result_row_radius == c1.ui.result_row_radius,
        c2.ui.title_font_size == c1.ui.title_font_size,
        c2.ui.subtitle_font_size == c1.ui.subtitle_font_size,
        c2.ui.icon_font_size == c1.ui.icon_font_size,
        trim_spec(c1.ai.base_url@) == c1.ai.base_url@ && c1.ai.base_url@.len() > 0
            ==> c2.ai.base_url@ == c1.ai.base_url@,
{
    reveal_strlit("gpt-4o-mini");
    reveal_strlit("https://api.openai.com/v1");
    let b0 = if trim_spec(c0.ai.base_url@).len() == 0 {
        "https://api.openai.com/v1"@
    } else {
        c0.ai.base_url@
    };
    lemma_strip_slashes_idempotent(trim_spec(b0));
    let p = match parse_position_spec(c0.ui.position@) {
        Some(p) => p,
        None => WindowPosition::TopLeft,
    };
    parse_normalized_round_trip(p);
    if c0.index_dirs@.len() == 0 {
        assert(strings_view(c1.index_dirs@).len() == 6);
    }
    let m = "gpt-4o-mini"@;
    if trim_spec(c0.ai.model@).len() == 0 {
        assert(!is_whitespace_spec(m[0]));
        assert(trim_spec(m).len() > 0);
    }
}

/// Whether `check` answers the same for the same text.
pub open spec fn consistent_checker<F: Fn(&str) -> bool>(check: F) -> bool {
    forall|a: &str, b: &str, x: bool, y: bool|
        #![trigger call_ensures(check, (a,), x), call_ensures(check, (b,), y)]
        a@ == b@ && call_ensures(check, (a,), x) && call_ensures(check, (b,), y) ==> x == y
}

proof fn lemma_color_stable<F: Fn(&str) -> bool>(
    check: F,
    old: Seq<char>,
    mid: Seq<char>,
    new: Seq<char>,
    fallback: Seq<char>,
)
    requires
        consistent_checker(check),
        is_trimmed(fallback),
        color_sanitized(check, old, mid, fallback),
        color_sanitized(check, mid, new, fallback),
    ensures
        new == mid,
{
    let t = trim_spec(old);
    lemma_trim_is_trimmed(old);
    lemma_trim_of_trimmed(fallback);
    if mid == t && color_check(check, t, true) {
        lemma_trim_of_trimmed(t);
        if new != mid {
            let a = choose|a: &str| a@ == t && call_ensures(check, (a,), true);
            let b = choose|b: &str| b@ == t && call_ensures(check, (b,), false);
            assert(call_ensures(check, (a,), true) && call_ensures(check, (b,), false));
        }
    }
}

/// Sanitizing sanitized colors again, with a checker that answers the same
/// for the same text, changes none of them.
pub proof fn sanitized_colors_are_stable<F: Fn(&str) -> bool>(
    check: F,
    c0: UiColors,
    c1: UiColors,
    c2: UiColors,
)
    requires
        consistent_checker(check),
        colors_sanitized(check, c0, c1),
        colors_sanitized(check, c1, c2),
    ensures
        c2.window_background@ == c1.window_background@,
        c2.shell_background@ == c1.shell_background@,
        c2.shell_border@ == c1.shell_border@,
        c2.search_background@ == c1.search_background@,
        c2.search_text@ == c1.search_text@,
        c2.results_background@ == c1.results_background@,
        c2.row_background@ == c1.row_background@,
        c2.row_selected_background@ == c1.row_selected_background@,
        c2.icon@ == c1.icon@,
        c2.title@ == c1.title@,
        c2.subtitle@ == c1.subtitle@,
{
    reveal_strlit("transparent");
    reveal_strlit("rgba(28, 31, 36, 0.96)");
    reveal_strlit("rgba(255, 255, 255, 0.14)");
    reveal_strlit("rgba(255, 255, 255, 0.1)");
    reveal_strlit("#f5f7fa");
    reveal_strlit("rgba(108, 160, 255, 0.28)");
    reveal_strlit("#9fb7ff");
    reveal_strlit("#aeb6c2");
    lemma_color_stable(check, c0.window_background@, c1.window_background@, c2.window_background@, "transparent"@);
    lemma_color_stable(check, c0.shell_background@, c1.shell_background@, c2.shell_background@, "rgba(28, 31, 36, 0.96)"@);
    lemma_color_stable(check, c0.shell_border@, c1.shell_border@, c2.shell_border@, "rgba(255, 255, 255, 0.14)"@);
    lemma_color_stable(check, c0.search_background@, c1.search_background@, c2.search_background@, "rgba(255, 255, 255, 0.1)"@);
    lemma_color_stable(check, c0.search_text@, c1.search_text@, c2.search_text@, "#f5f7fa"@);
    lemma_color_stable(check, c0.results_background@, c1.results_background@, c2.results_background@, "transparent"@);
    lemma_color_stable(check, c0.row_background@, c1.row_background@, c2.row_background@, "transparent"@);
    lemma_color_stable(check, c0.row_selected_background@, c1.row_selected_background@, c2.row_selected_background@, "rgba(108, 160, 255, 0.28)"@);
    lemma_color_stable(check, c0.icon@, c1.icon@, c2.icon@, "#9fb7ff"@);
    lemma_color_stable(check, c0.title@, c1.title@, c2.title@, "#f5f7fa"@);
    lemma_color_stable(check, c0.subtitle@, c1.subtitle@, c2.subtitle@, "#aeb6c2"@);
}

/// Sanitizing a sanitized configuration again, with a color checker that
/// answers the same for the same text, changes no field; the endpoint is
/// kept when the sanitized one has no surrounding whitespace and is not
/// empty (see `sanitize_is_stable`).
pub proof fn sanitize_is_idempotent<F: Fn(&str) -> bool>(check: F, c0: Config, c1: Config, c2: Config)
    requires
        consistent_checker(check),
        config_sanitized(check, c0, c1),
        config_sanitized(check, c1, c2),
    ensures
        c2.max_results == c1.max_results,
        c2.max_recent_searches == c1.max_recent_searches,
        c2.max_recent_items == c1.max_recent_items,
        c2.max_result_height == c1.max_result_height,
        c2.max_indexed_items == c1.max_indexed_items,
        c2.index_depth == c1.index_depth,
        c2.include_hidden == c1.include_hidden,
        c2.include_path_binaries == c1.include_path_binaries,
        c2.system_tray == c1.system_tray,
        strings_view(c2.index_dirs@) == strings_view(c1.index_dirs@),
        c2.ai.model@ == c1.ai.model@,
        c2.ai.api_key == c1.ai.api_key,
        trim_spec(c1.ai.base_url@) == c1.ai.base_url@ && c1.ai.base_url@.len() > 0
            ==> c2.ai.base_url@ == c1.ai.base_url@,
        c2.ui.position@ == c1.ui.position@,
        c2.ui.x == c1.ui.x && c2.ui.y == c1.ui.y,
        c2.ui.window_width == c1.ui.window_width,
        c2.ui.result_max_height == c1.ui.result_max_height,
        c2.ui.shell_margin == c1.ui.shell_margin,
        c2.ui.shell_padding == c1.ui.shell_padding,
        c2.ui.shell_radius == c1.ui.shell_radius,
        c2.ui.search_height == c1.ui.search_height,
        c2.ui.search_radius == c1.ui.search_radius,
        c2.ui.search_font_size == c1.ui.search_font_size,
        c2.ui.result_margin_top == c1.ui.result_margin_top,
        c2.ui.result_row_padding_y == c1.ui.result_row_padding_y,
        c2.ui.result_row_padding_x == c1.ui.result_row_padding_x,
        c2.ui.result_row_radius == c1.ui.result_row_radius,
        c2.ui.title_font_size == c1.ui.title_font_size,
        c2.ui.subtitle_font_size == c1.ui.subtitle_font_size,
        c2.ui.icon_font_size == c1.ui.icon_font_size,
        c2.ui.colors.window_background@ == c1.ui.colors.window_background@,
        c2.ui.colors.shell_background@ == c1.ui.colors.shell_background@,
        c2.ui.colors.shell_border@ == c1.ui.colors.shell_border@,
        c2.ui.colors.search_background@ == c1.ui.colors.search_background@,
        c2.ui.colors.search_text@ == c1.ui.colors.search_text@,
        c2.ui.colors.results_background@ == c1.ui.colors.results_background@,
        c2.ui.colors.row_background@ == c1.ui.colors.row_background@,
        c2.ui.colors.row_selected_background@ == c1.ui.colors.row_selected_background@,
        c2.ui.colors.icon@ == c1.ui.colors.icon@,
        c2.ui.colors.title@ == c1.ui.colors.title@,
        c2.ui.colors.subtitle@ == c1.ui.colors.subtitle@,
{
    sanitize_is_stable(check, check, c0, c1, c2);
    sanitized_colors_are_stable(check, c0.ui.colors, c1.ui.colors, c2.ui.colors);
}

} // verus!
