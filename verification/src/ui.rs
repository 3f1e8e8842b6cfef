//! What the launcher window shows: its style sheet, the rows of the
//! result list, and what activating a result does.

use vstd::prelude::*;
use crate::config::UiConfig;
use crate::search::{ItemKind, ItemView, SearchItem, SearchResult, results_view, opt_view};
use crate::text::{int_decimal_spec, owned, push_decimal, push_str, to_chars, trim, trim_spec};

verus! {

fn push_int(out: &mut String, v: i32)
    ensures
        final(out)@ == old(out)@ + int_decimal_spec(v as int),
{
    if v < 0 {
        out.push('-');
        let m = (-(v as i64)) as u64;
        push_decimal(out, m);
        assert(final(out)@ =~= old(out)@ + int_decimal_spec(v as int));
    } else {
        push_decimal(out, v as u64);
    }
}

/// The style sheet of the launcher for the layout `ui`.
pub open spec fn style_spec(ui: UiConfig) -> Seq<char> {
    "\nwindow {\n  background-color: "@
        + ui.colors.window_background@
        + ";\n  background-image: none;\n  border-radius: "@
        + int_decimal_spec(ui.shell_radius + ui.shell_margin)
        + "px;\n}\n\n#shell {\n  margin: "@
        + int_decimal_spec(ui.shell_margin as int)
        + "px;\n  padding: "@
        + int_decimal_spec(ui.shell_padding as int)
        + "px;\n  background-color: "@
        + ui.colors.shell_background@
        + ";\n  background-image: none;\n  border: 1px solid "@
        + ui.colors.shell_border@
        + ";\n  border-radius: "@
        + int_decimal_spec(ui.shell_radius as int)
        + "px;\n  box-shadow: 0 18px 70px rgba(0, 0, 0, 0.38);\n}\n\n#search {\n  min-height: "@
        + int_decimal_spec(ui.search_height as int)
        + "px;\n  padding: 0 16px;\n  border: 0;\n  border-radius: "@
        + int_decimal_spec(ui.search_radius as int)
        + "px;\n  background-color: "@
        + ui.colors.search_background@
        + ";\n  background-image: none;\n  color: "@
        + ui.colors.search_text@
        + ";\n  font-size: "@
        + int_decimal_spec(ui.search_font_size as int)
        + "px;\n}\n\n#search text {\n  background-color: transparent;\n  background-image: none;\n  color: "@
        + ui.colors.search_text@
        + ";\n  caret-color: "@
        + ui.colors.search_text@
        + ";\n}\n\n#search image {\n  color: "@
        + ui.colors.search_text@
        + ";\n}\n\n#results {\n  margin-top: "@
        + int_decimal_spec(ui.result_margin_top as int)
        + "px;\n  background-color: "@
        + ui.colors.results_background@
        + ";\n  background-image: none;\n}\n\n#result-row {\n  border-radius: "@
        + int_decimal_spec(ui.result_row_radius as int)
        + "px;\n  background-color: "@
        + ui.colors.row_background@
        + ";\n  background-image: none;\n}\n\n#result-row:selected {\n  background-color: "@
        + ui.colors.row_selected_background@
        + ";\n  background-image: none;\n}\n\n#icon {\n  color: "@
        + ui.colors.icon@
        + ";\n  font-size: "@
        + int_decimal_spec(ui.icon_font_size as int)
        + "px;\n}\n\n#title {\n  color: "@
        + ui.colors.title@
        + ";\n  font-size: "@
        + int_decimal_spec(ui.title_font_size as int)
        + "px;\n  font-weight: 600;\n}\n\n#subtitle {\n  color: "@
        + ui.colors.subtitle@
        + ";\n  font-size: "@
        + int_decimal_spec(ui.subtitle_font_size as int)
        + "px;\n}\n\n#response {\n  padding: 10px 12px;\n  color: "@
        + ui.colors.title@
        + ";\n  font-size: "@
        + int_decimal_spec(ui.subtitle_font_size + 2)
        + "px;\n}\n"@
}

/// The style sheet of the launcher for the layout `ui`.
pub fn build_style(ui: &UiConfig) -> (r: String)
    requires
        ui.shell_radius + ui.shell_margin <= i32::MAX,
        ui.shell_radius + ui.shell_margin >= i32::MIN,
        ui.subtitle_font_size + 2 <= i32::MAX,
    ensures
        r@ == style_spec(*ui),
{
    let mut out = String::new();
    push_str(&mut out, "\nwindow {\n  background-color: ");
    push_str(&mut out, ui.colors.window_background.as_str());
    push_str(&mut out, ";\n  background-image: none;\n  border-radius: ");
    push_int(&mut out, ui.shell_radius + ui.shell_margin);
    push_str(&mut out, "px;\n}\n\n#shell {\n  margin: ");
    push_int(&mut out, ui.shell_margin);
    push_str(&mut out, "px;\n  padding: ");
    push_int(&mut out, ui.shell_padding);
    push_str(&mut out, "px;\n  background-color: ");
    push_str(&mut out, ui.colors.shell_background.as_str());
    push_str(&mut out, ";\n  background-image: none;\n  border: 1px solid ");
    push_str(&mut out, ui.colors.shell_border.as_str());
    push_str(&mut out, ";\n  border-radius: ");
    push_int(&mut out, ui.shell_radius);
    push_str(&mut out, "px;\n  box-shadow: 0 18px 70px rgba(0, 0, 0, 0.38);\n}\n\n#search {\n  min-height: ");
    push_int(&mut out, ui.search_height);
    push_str(&mut out, "px;\n  padding: 0 16px;\n  border: 0;\n  border-radius: ");
    push_int(&mut out, ui.search_radius);
    push_str(&mut out, "px;\n  background-color: ");
    push_str(&mut out, ui.colors.search_background.as_str());
    push_str(&mut out, ";\n  background-image: none;\n  color: ");
    push_str(&mut out, ui.colors.search_text.as_str());
    push_str(&mut out, ";\n  font-size: ");
    push_int(&mut out, ui.search_font_size);
    push_str(&mut out, "px;\n}\n\n#search text {\n  background-color: transparent;\n  background-image: none;\n  color: ");
    push_str(&mut out, ui.colors.search_text.as_str());
    push_str(&mut out, ";\n  caret-color: ");
    push_str(&mut out, ui.colors.search_text.as_str());
    push_str(&mut out, ";\n}\n\n#search image {\n  color: ");
    push_str(&mut out, ui.colors.search_text.as_str());
    push_str(&mut out, ";\n}\n\n#results {\n  margin-top: ");
    push_int(&mut out, ui.result_margin_top);
    push_str(&mut out, "px;\n  background-color: ");
    push_str(&mut out, ui.colors.results_background.as_str());
    push_str(&mut out, ";\n  background-image: none;\n}\n\n#result-row {\n  border-radius: ");
    push_int(&mut out, ui.result_row_radius);
    push_str(&mut out, "px;\n  background-color: ");
    push_str(&mut out, ui.colors.row_background.as_str());
    push_str(&mut out, ";\n  background-image: none;\n}\n\n#result-row:selected {\n  background-color: ");
    push_str(&mut out, ui.colors.row_selected_background.as_str());
    push_str(&mut out, ";\n  background-image: none;\n}\n\n#icon {\n  color: ");
    push_str(&mut out, ui.colors.icon.as_str());
    push_str(&mut out, ";\n  font-size: ");
    push_int(&mut out, ui.icon_font_size);
    push_str(&mut out, "px;\n}\n\n#title {\n  color: ");
    push_str(&mut out, ui.colors.title.as_str());
    push_str(&mut out, ";\n  font-size: ");
    push_int(&mut out, ui.title_font_size);
    push_str(&mut out, "px;\n  font-weight: 600;\n}\n\n#subtitle {\n  color: ");
    push_str(&mut out, ui.colors.subtitle.as_str());
    push_str(&mut out, ";\n  font-size: ");
    push_int(&mut out, ui.subtitle_font_size);
    push_str(&mut out, "px;\n}\n\n#response {\n  padding: 10px 12px;\n  color: ");
    push_str(&mut out, ui.colors.title.as_str());
    push_str(&mut out, ";\n  font-size: ");
    push_int(&mut out, ui.subtitle_font_size + 2);
    push_str(&mut out, "px;\n}\n");
    assert(out@ =~= style_spec(*ui));
    out
}

/// The glyph shown for an item without its own icon.
pub fn result_icon(kind: ItemKind) -> (r: &'static str)
    ensures
        r@ == icon_spec(kind),
{
    match kind {
        ItemKind::RecentSearch => "\u{21b6}",
        ItemKind::Application => "\u{25cf}",
        ItemKind::Command => ">",
        ItemKind::File => "\u{25a1}",
        ItemKind::Directory => "\u{25a3}",
        ItemKind::WebSearch => "\u{2315}",
        ItemKind::AiPrompt => "\u{2726}",
    }
}

/// A row of the result list: title, subtitle, fallback glyph and the
/// desktop icon name, if any.
pub struct ResultRow {
    pub title: String,
    pub subtitle: String,
    pub icon: &'static str,
    pub desktop_icon: Option<String>,
}

/// The view of a row: title, subtitle, glyph, desktop icon.
pub open spec fn row_view(r: ResultRow) -> (Seq<char>, Seq<char>, Seq<char>, Option<Seq<char>>) {
    (r.title@, r.subtitle@, r.icon@, opt_view(r.desktop_icon))
}

/// The glyph of each kind.
pub open spec fn icon_spec(kind: ItemKind) -> Seq<char> {
    match kind {
        ItemKind::RecentSearch => "\u{21b6}"@,
        ItemKind::Application => "\u{25cf}"@,
        ItemKind::Command => ">"@,
        ItemKind::File => "\u{25a1}"@,
        ItemKind::Directory => "\u{25a3}"@,
        ItemKind::WebSearch => "\u{2315}"@,
        ItemKind::AiPrompt => "\u{2726}"@,
    }
}

/// The rows shown for `results` of `query`: none (the list is hidden) for
/// an empty query without results; one explanatory row when there are no
/// results (still indexing, or nothing found); else one row per result.
pub open spec fn rows_spec(results: Seq<ItemView>, query: Seq<char>, indexing: bool) -> Option<
    Seq<(Seq<char>, Seq<char>, Seq<char>, Option<Seq<char>>)>,
> {
    if trim_spec(query).len() == 0 && results.len() == 0 {
        None
    } else if results.len() == 0 {
        Some(
            seq![
                if indexing {
                    ("Indexing\u{2026}"@, "Applications, commands, and files will appear automatically"@, ""@, None)
                } else {
                    ("No results"@, "Keep typing or try another query"@, ""@, None)
                },
            ],
        )
    } else {
        Some(
            results.map_values(
                |i: ItemView| (i.title, i.subtitle, icon_spec(i.kind), i.desktop_icon),
            ),
        )
    }
}

/// The rows to show for `results` of `query` (`None`: hide the list).
pub fn result_rows(results: &[SearchResult], query: &str, indexing: bool) -> (r: Option<Vec<ResultRow>>)
    ensures
        match r {
            None => rows_spec(results_view(results@).map_values(|x: crate::search::ResultView| x.item), query@, indexing) is None,
            Some(rows) => rows_spec(results_view(results@).map_values(|x: crate::search::ResultView| x.item), query@, indexing)
                == Some(rows@.map_values(|x: ResultRow| row_view(x))),
        },
{
    let ghost items = results_view(results@).map_values(|x: crate::search::ResultView| x.item);
    let empty_query = to_chars(trim(query).as_str()).len() == 0;
    if empty_query && results.len() == 0 {
        return None;
    }
    let mut rows: Vec<ResultRow> = Vec::new();
    if results.len() == 0 {
        if indexing {
            rows.push(ResultRow {
                title: owned("Indexing\u{2026}"),
                subtitle: owned("Applications, commands, and files will appear automatically"),
                icon: "",
                desktop_icon: None,
            });
        } else {
            rows.push(ResultRow {
                title: owned("No results"),
                subtitle: owned("Keep typing or try another query"),
                icon: "",
                desktop_icon: None,
            });
        }
        assert(rows@.map_values(|x: ResultRow| row_view(x)) =~= rows_spec(items, query@, indexing).unwrap());
        return Some(rows);
    }
    let mut i: usize = 0;
    while i < results.len()
        invariant
            i <= results@.len(),
            items == results_view(results@).map_values(|x: crate::search::ResultView| x.item),
            rows@.map_values(|x: ResultRow| row_view(x)) == items.take(i as int).map_values(
                |it: ItemView| (it.title, it.subtitle, icon_spec(it.kind), it.desktop_icon),
            ),
        decreases results@.len() - i,
    {
        let item = &results[i].item;
        let ghost before = rows@.map_values(|x: ResultRow| row_view(x));
        assert(items[i as int] == item@);
        let row = ResultRow {
            title: item.title.clone(),
            subtitle: item.subtitle.clone(),
            icon: result_icon(item.kind),
            desktop_icon: match &item.desktop_icon {
                Some(s) => Some(s.clone()),
                None => None,
            },
        };
        assert(row_view(row) == (item@.title, item@.subtitle, icon_spec(item@.kind), item@.desktop_icon));
        rows.push(row);
        assert(rows@.map_values(|x: ResultRow| row_view(x)) =~= before.push(row_view(row)));
        assert(items.take(i + 1) =~= items.take(i as int).push(items[i as int]));
        assert(rows@.map_values(|x: ResultRow| row_view(x)) =~= items.take(i + 1).map_values(
            |it: ItemView| (it.title, it.subtitle, icon_spec(it.kind), it.desktop_icon),
        ));
        i = i + 1;
    }
    assert(items.take(results@.len() as int) =~= items);
    Some(rows)
}

/// What activating a result does.
#[derive(Debug, PartialEq, Eq)]
pub enum Activation {
    /// Nothing: an AI prompt without a question.
    Ignore,
    /// Put this earlier search back into the entry (nothing is recorded).
    Restore(String),
    /// Record the search, then ask the AI assistant this question.
    AskAi(String),
    /// Record the search, then launch the item.
    Launch,
}

/// What activating `item` does.
pub fn activation(item: &SearchItem) -> (r: Activation)
    ensures
        item.kind == ItemKind::RecentSearch ==> (r matches Activation::Restore(q) && q@
            == item.target@),
        item.kind == ItemKind::AiPrompt && item.target@.len() == 0 ==> r == Activation::Ignore,
        item.kind == ItemKind::AiPrompt && item.target@.len() > 0 ==> (r matches Activation::AskAi(q)
            && q@ == item.target@),
        item.kind != ItemKind::AiPrompt && item.kind != ItemKind::RecentSearch ==> r
            == Activation::Launch,
{
    if item.kind == ItemKind::RecentSearch {
        Activation::Restore(item.target.clone())
    } else if item.kind == ItemKind::AiPrompt {
        if to_chars(item.target.as_str()).len() == 0 {
            Activation::Ignore
        } else {
            Activation::AskAi(item.target.clone())
        }
    } else {
        Activation::Launch
    }
}

/// How an item is launched.
#[derive(Debug, PartialEq, Eq)]
pub enum LaunchPlan {
    /// Run the command line with `sh -c`.
    Shell(String),
    /// Run the executable at this path.
    Spawn(String),
    /// Open the file, directory or URL with the default handler.
    Open(String),
    /// Nothing to launch.
    Nothing,
}

/// Why an item cannot be launched.
#[derive(Debug, PartialEq, Eq)]
pub enum LaunchError {
    /// An application whose command line is blank.
    EmptyCommand,
}

/// How to launch `item`: applications through the shell (a blank command
/// is an error), commands directly, files, directories and web searches
/// with the default handler, AI prompts and recent searches not at all.
pub fn launch_plan(item: &SearchItem) -> (r: Result<LaunchPlan, LaunchError>)
    ensures
        match item.kind {
            ItemKind::Application => if trim_spec(item.target@).len() == 0 {
                r == Err::<LaunchPlan, LaunchError>(LaunchError::EmptyCommand)
            } else {
                (r matches Ok(LaunchPlan::Shell(c)) && c@ == item.target@)
            },
            ItemKind::Command => (r matches Ok(LaunchPlan::Spawn(c)) && c@ == item.target@),
            ItemKind::File | ItemKind::Directory | ItemKind::WebSearch => (r matches Ok(
                LaunchPlan::Open(c),
            ) && c@ == item.target@),
            ItemKind::AiPrompt | ItemKind::RecentSearch => r == Ok::<LaunchPlan, LaunchError>(
                LaunchPlan::Nothing,
            ),
        },
{
    match item.kind {
        ItemKind::Application => {
            if to_chars(trim(item.target.as_str()).as_str()).len() == 0 {
                Err(LaunchError::EmptyCommand)
            } else {
                Ok(LaunchPlan::Shell(item.target.clone()))
            }
        },
        ItemKind::Command => Ok(LaunchPlan::Spawn(item.target.clone())),
        ItemKind::File | ItemKind::Directory | ItemKind::WebSearch => Ok(
            LaunchPlan::Open(item.target.clone()),
        ),
        ItemKind::AiPrompt | ItemKind::RecentSearch => Ok(LaunchPlan::Nothing),
    }
}

/// The row to select after moving by `delta` from row `current` (never
/// above the first row).
pub fn next_selection(current: i32, delta: i32) -> (r: i32)
    requires
        i32::MIN <= current + delta <= i32::MAX,
    ensures
        r == if current + delta < 0 {
            0
        } else {
            current + delta
        },
{
    let next = current + delta;
    if next < 0 {
        0
    } else {
        next
    }
}

} // verus!
