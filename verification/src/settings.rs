//! Values shown and read back by the settings window.

use vstd::prelude::*;
use crate::config::{WindowPosition, parse_normalized_round_trip, parse_position_spec, position_name};
use crate::platform::{column, row};
use crate::desktop::lines_spec;
use crate::text::{chars_eq, owned, to_chars, trim, trim_spec};

verus! {

/// The position names in the order the settings window lists them.
pub open spec fn position_ids() -> Seq<Seq<char>> {
    seq![
        position_name(WindowPosition::TopLeft),
        position_name(WindowPosition::TopCenter),
        position_name(WindowPosition::TopRight),
        position_name(WindowPosition::CenterLeft),
        position_name(WindowPosition::Center),
        position_name(WindowPosition::CenterRight),
        position_name(WindowPosition::BottomLeft),
        position_name(WindowPosition::BottomCenter),
        position_name(WindowPosition::BottomRight),
        position_name(WindowPosition::Custom),
    ]
}

fn position_at(i: usize) -> (r: WindowPosition)
    requires
        i < 10,
    ensures
        position_name(r) == position_ids()[i as int],
{
    match i {
        0 => WindowPosition::TopLeft,
        1 => WindowPosition::TopCenter,
        2 => WindowPosition::TopRight,
        3 => WindowPosition::CenterLeft,
        4 => WindowPosition::Center,
        5 => WindowPosition::CenterRight,
        6 => WindowPosition::BottomLeft,
        7 => WindowPosition::BottomCenter,
        8 => WindowPosition::BottomRight,
        _ => WindowPosition::Custom,
    }
}

/// The row of the position list selected for `position`: the index of the
/// name equal to it, or the first row when none is.
pub fn position_index(position: &str) -> (r: usize)
    ensures
        r < 10,
        (exists|i: int| 0 <= i < 10 && position_ids()[i] == position@) ==> position_ids()[r as int]
            == position@ && forall|j: int| 0 <= j < r ==> position_ids()[j] != position@,
        !(exists|i: int| 0 <= i < 10 && position_ids()[i] == position@) ==> r == 0,
{
    let p = to_chars(position);
    let mut i: usize = 0;
    while i < 10
        invariant
            i <= 10,
            p@ == position@,
            forall|j: int| 0 <= j < i ==> position_ids()[j] != position@,
        decreases 10 - i,
    {
        let name = position_at(i).normalized();
        if chars_eq(to_chars(name).as_slice(), p.as_slice()) {
            return i;
        }
        i = i + 1;
    }
    0
}

/// The position name of the selected row `selected`, or `"top-left"` when
/// it is out of range.
pub fn position_id(selected: u32) -> (r: String)
    ensures
        r@ == if selected < 10 {
            position_ids()[selected as int]
        } else {
            "top-left"@
        },
{
    if selected < 10 {
        owned(position_at(selected as usize).normalized())
    } else {
        owned("top-left")
    }
}

/// The directories entered one per line: lines trimmed, blank ones dropped.
pub open spec fn index_dirs_spec(text: Seq<char>) -> Seq<Seq<char>> {
    lines_spec(text).map_values(|l: Seq<char>| trim_spec(l)).filter(|l: Seq<char>| l.len() > 0)
}

/// The directories entered one per line in `text`.
pub fn index_dirs_from_text(text: &str) -> (r: Vec<String>)
    ensures
        r@.map_values(|s: String| s@) == index_dirs_spec(text@),
{
    let ls = crate::desktop::text_lines(text);
    let ghost lv = lines_spec(text@);
    let ghost trimmed = lv.map_values(|l: Seq<char>| trim_spec(l));
    let ghost pred = |l: Seq<char>| l.len() > 0;
    let mut out: Vec<String> = Vec::new();
    let mut i: usize = 0;
    while i < ls.len()
        invariant
            i <= ls@.len() == lv.len(),
            lv == lines_spec(text@),
            trimmed == lv.map_values(|l: Seq<char>| trim_spec(l)),
            pred == (|l: Seq<char>| l.len() > 0),
            forall|k: int| 0 <= k < ls@.len() ==> (#[trigger] ls@[k])@ == lv[k],
            out@.map_values(|s: String| s@) == trimmed.take(i as int).filter(pred),
        decreases ls@.len() - i,
    {
        reveal_with_fuel(Seq::<_>::filter, 1);
        let t = trim(ls[i].as_str());
        assert(trimmed.take(i + 1).drop_last() =~= trimmed.take(i as int));
        assert(trimmed.take(i + 1).last() == t@);
        let ghost before = out@.map_values(|s: String| s@);
        if to_chars(t.as_str()).len() > 0 {
            out.push(t);
            assert(out@.map_values(|s: String| s@) =~= before.push(trimmed[i as int]));
        } else {
            assert(out@.map_values(|s: String| s@) =~= before);
        }
        i = i + 1;
    }
    assert(trimmed.take(ls@.len() as int) =~= trimmed);
    out
}

/// A spin button value as a count: negative values become zero.
pub fn spin_usize(value: i32) -> (r: usize)
    ensures
        r == if value < 0 {
            0
        } else {
            value as int
        },
{
    if value < 0 {
        0
    } else {
        value as usize
    }
}

/// The position list reads like the screen: rows top, center, bottom,
/// each from left to right (row `i / 3`, column `i % 3` for the first nine
/// entries, with the anchors' rows and columns as window placement uses
/// them), then custom coordinates; no name appears twice, so the row found
/// for a name is the row that shows it.
pub proof fn position_list_reads_like_the_screen()
    ensures
        forall|i: int|
            0 <= i < 9 ==> (#[trigger] parse_position_spec(position_ids()[i]) matches Some(p) && p
                != WindowPosition::Custom && row(p) == i / 3 && column(p) == i % 3),
        parse_position_spec(position_ids()[9]) == Some(WindowPosition::Custom),
        forall|i: int, j: int|
            0 <= i < j < 10 ==> #[trigger] position_ids()[i] != #[trigger] position_ids()[j],
{
    parse_normalized_round_trip(WindowPosition::TopLeft);
    parse_normalized_round_trip(WindowPosition::TopCenter);
    parse_normalized_round_trip(WindowPosition::TopRight);
    parse_normalized_round_trip(WindowPosition::CenterLeft);
    parse_normalized_round_trip(WindowPosition::Center);
    parse_normalized_round_trip(WindowPosition::CenterRight);
    parse_normalized_round_trip(WindowPosition::BottomLeft);
    parse_normalized_round_trip(WindowPosition::BottomCenter);
    parse_normalized_round_trip(WindowPosition::BottomRight);
    parse_normalized_round_trip(WindowPosition::Custom);
    assert forall|i: int, j: int| 0 <= i < j < 10 implies #[trigger] position_ids()[i]
        != #[trigger] position_ids()[j] by {
        if position_ids()[i] == position_ids()[j] {
            assert(parse_position_spec(position_ids()[i]) == parse_position_spec(position_ids()[j]));
        }
    }
}

/// Choosing a row and reading it back finds that row.
pub proof fn position_index_finds_the_chosen_row(i: int)
    requires
        0 <= i < 10,
    ensures
        forall|r: int|
            0 <= r < 10 && position_ids()[r] == position_ids()[i] && (forall|j: int|
                0 <= j < r ==> position_ids()[j] != position_ids()[i]) ==> r == i,
{
    position_list_reads_like_the_screen();
}

} // verus!
