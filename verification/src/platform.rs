//! Window placement on a Sway workspace and the `swaymsg` command that
//! applies it.

use vstd::prelude::*;
use crate::config::{WindowPosition, UiConfig, parse_position_spec};
use crate::text::{decimal_spec, int_decimal_spec, owned, push_decimal, push_str};

verus! {

/// The application id the launcher window carries.
pub const APP_ID: &'static str = "dev.spotter.Launcher";
/// The product name, also the launcher window's title.
pub const PRODUCT_NAME: &'static str = "Spotter";

/// A rectangle in compositor coordinates.
#[derive(Clone, Copy, Debug, PartialEq, Eq, Structural)]
pub struct SwayRect {
    pub x: i32,
    pub y: i32,
    pub width: i32,
    pub height: i32,
}

/// A Sway workspace: whether it has focus, and its geometry.
#[derive(Clone, Copy, Debug, PartialEq, Eq, Structural)]
pub struct SwayWorkspace {
    pub focused: bool,
    pub rect: SwayRect,
}

/// Whether `v` fits in an `i32`.
pub open spec fn fits_i32(v: int) -> bool {
    i32::MIN <= v <= i32::MAX
}

/// `a / b` rounded toward zero, as Rust's integer division.
pub open spec fn div_trunc(a: int, b: int) -> int {
    if a >= 0 {
        a / b
    } else {
        -((-a) / b)
    }
}

/// The larger of `v` and `0`.
pub open spec fn nonneg(v: int) -> int {
    if v < 0 {
        0
    } else {
        v
    }
}

/// Whether every step of the anchored-position arithmetic stays within `i32`.
pub open spec fn position_arithmetic_fits(ws: SwayRect, w: i32, h: i32, xo: i32, yo: i32) -> bool {
    let dw = ws.width - w;
    let dh = ws.height - h;
    &&& fits_i32(dw)
    &&& fits_i32(dh)
    &&& fits_i32(ws.x + nonneg(xo as int))
    &&& fits_i32(ws.x + div_trunc(dw, 2))
    &&& fits_i32(ws.x + div_trunc(dw, 2) + xo)
    &&& fits_i32(ws.x + ws.width)
    &&& fits_i32(ws.x + ws.width - w)
    &&& fits_i32(ws.x + ws.width - w - nonneg(xo as int))
    &&& fits_i32(ws.y + nonneg(yo as int))
    &&& fits_i32(ws.y + div_trunc(dh, 2))
    &&& fits_i32(ws.y + div_trunc(dh, 2) + yo)
    &&& fits_i32(ws.y + ws.height)
    &&& fits_i32(ws.y + ws.height - h)
    &&& fits_i32(ws.y + ws.height - h - nonneg(yo as int))
    &&& fits_i32(ws.x + nonneg(dw))
    &&& fits_i32(ws.y + nonneg(dh))
}

/// The value `v` limited to `[lo, hi]`.
pub open spec fn clamp_int(v: int, lo: int, hi: int) -> int {
    if v < lo {
        lo
    } else if v > hi {
        hi
    } else {
        v
    }
}

/// The column a position anchors to (0 left, 1 center, 2 right).
pub open spec fn column(p: WindowPosition) -> int {
    match p {
        WindowPosition::TopLeft | WindowPosition::CenterLeft | WindowPosition::BottomLeft => 0,
        WindowPosition::TopCenter | WindowPosition::Center | WindowPosition::BottomCenter => 1,
        _ => 2,
    }
}

/// The row a position anchors to (0 top, 1 center, 2 bottom).
pub open spec fn row(p: WindowPosition) -> int {
    match p {
        WindowPosition::TopLeft | WindowPosition::TopCenter | WindowPosition::TopRight => 0,
        WindowPosition::CenterLeft | WindowPosition::Center | WindowPosition::CenterRight => 1,
        _ => 2,
    }
}

/// Where a window of size `w`×`h` goes on `ws` for an anchored position,
/// with the offsets moving it inward from its edges (or from the center),
/// kept on the workspace whenever it fits; a custom position is the
/// offsets themselves.
pub open spec fn window_position_spec(
    p: WindowPosition,
    ws: SwayRect,
    w: i32,
    h: i32,
    xo: i32,
    yo: i32,
) -> (int, int) {
    if p == WindowPosition::Custom {
        (xo as int, yo as int)
    } else {
        let x = if column(p) == 0 {
            ws.x + nonneg(xo as int)
        } else if column(p) == 1 {
            ws.x + div_trunc(ws.width - w, 2) + xo
        } else {
            ws.x + ws.width - w - nonneg(xo as int)
        };
        let y = if row(p) == 0 {
            ws.y + nonneg(yo as int)
        } else if row(p) == 1 {
            ws.y + div_trunc(ws.height - h, 2) + yo
        } else {
            ws.y + ws.height - h - nonneg(yo as int)
        };
        (
            clamp_int(x, ws.x as int, ws.x + nonneg(ws.width - w)),
            clamp_int(y, ws.y as int, ws.y + nonneg(ws.height - h)),
        )
    }
}

/// Placement follows the anchor's row and column: positions in one row
/// share their height and positions in one column share their horizontal
/// place (`column` and `row` name them), whatever the offsets. When the
/// window fits, the left and top anchors keep their offset from the left
/// and top edges, the right and bottom anchors keep it from the right and
/// bottom edges, and without an offset the centre anchors leave equal room
/// on both sides (up to one pixel, the extra one after the window).
pub proof fn placement_follows_rows_and_columns(ws: SwayRect, w: i32, h: i32, xo: i32, yo: i32)
    ensures
        ({
            let pos = |p: WindowPosition| window_position_spec(p, ws, w, h, xo, yo);
            &&& pos(WindowPosition::TopLeft).1 == pos(WindowPosition::TopCenter).1
            &&& pos(WindowPosition::TopLeft).1 == pos(WindowPosition::TopRight).1
            &&& pos(WindowPosition::CenterLeft).1 == pos(WindowPosition::Center).1
            &&& pos(WindowPosition::CenterLeft).1 == pos(WindowPosition::CenterRight).1
            &&& pos(WindowPosition::BottomLeft).1 == pos(WindowPosition::BottomCenter).1
            &&& pos(WindowPosition::BottomLeft).1 == pos(WindowPosition::BottomRight).1
            &&& pos(WindowPosition::TopLeft).0 == pos(WindowPosition::CenterLeft).0
            &&& pos(WindowPosition::TopLeft).0 == pos(WindowPosition::BottomLeft).0
            &&& pos(WindowPosition::TopCenter).0 == pos(WindowPosition::Center).0
            &&& pos(WindowPosition::TopCenter).0 == pos(WindowPosition::BottomCenter).0
            &&& pos(WindowPosition::TopRight).0 == pos(WindowPosition::CenterRight).0
            &&& pos(WindowPosition::TopRight).0 == pos(WindowPosition::BottomRight).0
            &&& forall|p: WindowPosition| p != WindowPosition::Custom ==> {
                &&& (column(p) == 0 ==> pos(p).0 == pos(WindowPosition::TopLeft).0)
                &&& (column(p) == 1 ==> pos(p).0 == pos(WindowPosition::TopCenter).0)
                &&& (column(p) == 2 ==> pos(p).0 == pos(WindowPosition::TopRight).0)
                &&& (row(p) == 0 ==> pos(p).1 == pos(WindowPosition::TopLeft).1)
                &&& (row(p) == 1 ==> pos(p).1 == pos(WindowPosition::CenterLeft).1)
                &&& (row(p) == 2 ==> pos(p).1 == pos(WindowPosition::BottomLeft).1)
            }
            &&& (0 <= xo && xo + w <= ws.width ==> {
                &&& pos(WindowPosition::TopLeft).0 == ws.x + xo
                &&& pos(WindowPosition::TopRight).0 + w + xo == ws.x + ws.width
            })
            &&& (0 <= yo && yo + h <= ws.height ==> {
                &&& pos(WindowPosition::TopLeft).1 == ws.y + yo
                &&& pos(WindowPosition::BottomLeft).1 + h + yo == ws.y + ws.height
            })
            &&& (xo == 0 && w <= ws.width ==> {
                let before = pos(WindowPosition::Center).0 - ws.x;
                let after = ws.x + ws.width - (pos(WindowPosition::Center).0 + w);
                0 <= after - before <= 1
            })
            &&& (yo == 0 && h <= ws.height ==> {
                let before = pos(WindowPosition::Center).1 - ws.y;
                let after = ws.y + ws.height - (pos(WindowPosition::Center).1 + h);
                0 <= after - before <= 1
            })
        }),
{
}

fn clamp_i32(v: i32, lo: i32, hi: i32) -> (r: i32)
    requires
        lo <= hi,
    ensures
        r == clamp_int(v as int, lo as int, hi as int),
{
    if v < lo {
        lo
    } else if v > hi {
        hi
    } else {
        v
    }
}

/// Where a window of size `window_width`×`window_height` is placed on
/// `workspace` for `position` and the offsets.
pub fn calculate_window_position(
    position: WindowPosition,
    workspace: SwayRect,
    window_width: i32,
    window_height: i32,
    x_offset: i32,
    y_offset: i32,
) -> (r: (i32, i32))
    requires
        position != WindowPosition::Custom ==> position_arithmetic_fits(
            workspace,
            window_width,
            window_height,
            x_offset,
            y_offset,
        ),
    ensures
        (r.0 as int, r.1 as int) == window_position_spec(
            position,
            workspace,
            window_width,
            window_height,
            x_offset,
            y_offset,
        ),
        position != WindowPosition::Custom ==> workspace.x <= r.0 <= workspace.x + nonneg(
            workspace.width - window_width,
        ) && workspace.y <= r.1 <= workspace.y + nonneg(workspace.height - window_height),
{
    if position == WindowPosition::Custom {
        return (x_offset, y_offset);
    }
    let xo = if x_offset < 0 {
        0
    } else {
        x_offset
    };
    let yo = if y_offset < 0 {
        0
    } else {
        y_offset
    };
    let left = workspace.x + xo;
    let center_x = workspace.x + (workspace.width - window_width) / 2 + x_offset;
    let right = workspace.x + workspace.width - window_width - xo;
    let top = workspace.y + yo;
    let center_y = workspace.y + (workspace.height - window_height) / 2 + y_offset;
    let bottom = workspace.y + workspace.height - window_height - yo;
    let (x, y) = match position {
        WindowPosition::TopLeft => (left, top),
        WindowPosition::TopCenter => (center_x, top),
        WindowPosition::TopRight => (right, top),
        WindowPosition::CenterLeft => (left, center_y),
        WindowPosition::Center => (center_x, center_y),
        WindowPosition::CenterRight => (right, center_y),
        WindowPosition::BottomLeft => (left, bottom),
        WindowPosition::BottomCenter => (center_x, bottom),
        _ => (right, bottom),
    };
    let dw = workspace.width - window_width;
    let dh = workspace.height - window_height;
    let max_x = workspace.x + if dw < 0 {
        0
    } else {
        dw
    };
    let max_y = workspace.y + if dh < 0 {
        0
    } else {
        dh
    };
    (clamp_i32(x, workspace.x, max_x), clamp_i32(y, workspace.y, max_y))
}

/// Whether placing a window with these values stays within `i32`
/// arithmetic (so that `calculate_window_position` may be called).
pub fn position_fits(
    workspace: SwayRect,
    window_width: i32,
    window_height: i32,
    x_offset: i32,
    y_offset: i32,
) -> (r: bool)
    ensures
        r == position_arithmetic_fits(workspace, window_width, window_height, x_offset, y_offset),
{
    let (wx, wy, ww, wh) = (
        workspace.x as i64,
        workspace.y as i64,
        workspace.width as i64,
        workspace.height as i64,
    );
    let (w, h, xo, yo) = (window_width as i64, window_height as i64, x_offset as i64, y_offset as i64);
    let min = i32::MIN as i64;
    let max = i32::MAX as i64;
    let nxo = if xo < 0 {
        0
    } else {
        xo
    };
    let nyo = if yo < 0 {
        0
    } else {
        yo
    };
    let dw = ww - w;
    let dh = wh - h;
    let hw = dw / 2;
    let hh = dh / 2;
    let ndw = if dw < 0 {
        0
    } else {
        dw
    };
    let ndh = if dh < 0 {
        0
    } else {
        dh
    };
    let values: [i64; 16] = [
        dw,
        dh,
        wx + nxo,
        wx + hw,
        wx + hw + xo,
        wx + ww,
        wx + ww - w,
        wx + ww - w - nxo,
        wy + nyo,
        wy + hh,
        wy + hh + yo,
        wy + wh,
        wy + wh - h,
        wy + wh - h - nyo,
        wx + ndw,
        wy + ndh,
    ];
    let mut ok = true;
    let mut i: usize = 0;
    while i < 16
        invariant
            i <= 16,
            ok == forall|k: int| 0 <= k < i ==> min <= #[trigger] values@[k] <= max,
        decreases 16 - i,
    {
        ok = ok && min <= values[i] && values[i] <= max;
        i = i + 1;
    }
    proof {
        assert(hw == div_trunc(dw as int, 2));
        assert(hh == div_trunc(dh as int, 2));
        assert(values@[0] == dw && values@[1] == dh && values@[2] == wx + nxo);
    }
    ok
}

/// Whether placing the window for `ui` needs the focused workspace (every
/// position except custom coordinates).
pub fn needs_workspace(ui: &UiConfig) -> (r: bool)
    ensures
        r == (parse_position_spec(ui.position@) != Some(WindowPosition::Custom)),
{
    match WindowPosition::parse(ui.position.as_str()) {
        Some(WindowPosition::Custom) => false,
        _ => true,
    }
}

/// The geometry of the first focused workspace, if any.
pub fn focused_workspace(workspaces: &[SwayWorkspace]) -> (r: Option<SwayRect>)
    ensures
        match r {
            Some(rect) => exists|i: int|
                0 <= i < workspaces@.len() && (#[trigger] workspaces@[i]).focused && workspaces@[i].rect
                    == rect && forall|j: int| 0 <= j < i ==> !(#[trigger] workspaces@[j]).focused,
            None => forall|i: int| 0 <= i < workspaces@.len() ==> !(#[trigger] workspaces@[i]).focused,
        },
{
    let mut i: usize = 0;
    while i < workspaces.len()
        invariant
            i <= workspaces@.len(),
            forall|j: int| 0 <= j < i ==> !(#[trigger] workspaces@[j]).focused,
        decreases workspaces@.len() - i,
    {
        if workspaces[i].focused {
            return Some(workspaces[i].rect);
        }
        i = i + 1;
    }
    None
}

/// The Sway command that floats the launcher window of process `pid`,
/// sets its width and moves it to `(x, y)`.
pub open spec fn sway_command_spec(pid: u32, width: i32, x: i32, y: i32) -> Seq<char> {
    "[app_id=\"dev.spotter.Launcher\" title=\"^Spotter$\" pid=\""@ + decimal_spec(pid as nat)
        + "\"] floating enable, resize set width "@ + int_decimal_spec(width as int)
        + " px, move absolute position "@ + int_decimal_spec(x as int) + " px "@
        + int_decimal_spec(y as int) + " px"@
}

fn push_int(out: &mut String, v: i32)
    ensures
        final(out)@ == old(out)@ + int_decimal_spec(v as int),
{
    if v < 0 {
        out.push('-');
        let m = (-(v as i64)) as u64;
        push_decimal(out, m);
        assert(final(out)@ =~= old(out)@ + int_decimal_spec(v as int));
    } else {
        push_decimal(out, v as u64);
    }
}

/// The Sway command that floats the launcher window of process `pid`,
/// sets its width and moves it to `(x, y)`.
pub fn sway_position_command(pid: u32, width: i32, x: i32, y: i32) -> (r: String)
    ensures
        r@ == sway_command_spec(pid, width, x, y),
{
    let mut out = owned("[app_id=\"dev.spotter.Launcher\" title=\"^Spotter$\" pid=\"");
    push_decimal(&mut out, pid as u64);
    push_str(&mut out, "\"] floating enable, resize set width ");
    push_int(&mut out, width);
    push_str(&mut out, " px, move absolute position ");
    push_int(&mut out, x);
    push_str(&mut out, " px ");
    push_int(&mut out, y);
    push_str(&mut out, " px");
    out
}

/// The reply of Sway to one command.
#[derive(Clone, Debug)]
pub struct SwayCommandResult {
    pub success: bool,
    pub error: Option<String>,
}

/// Why Sway rejected a command: the error of the first failed reply
/// (`"unknown error"` when it gives none), or `None` when all succeeded.
pub fn first_rejection(results: &[SwayCommandResult]) -> (r: Option<String>)
    ensures
        match r {
            Some(msg) => exists|i: int|
                0 <= i < results@.len() && !(#[trigger] results@[i]).success && (forall|j: int|
                    0 <= j < i ==> (#[trigger] results@[j]).success) && msg@ == match results@[i].error {
                    Some(e) => e@,
                    None => "unknown error"@,
                },
            None => forall|i: int| 0 <= i < results@.len() ==> (#[trigger] results@[i]).success,
        },
{
    let mut i: usize = 0;
    while i < results.len()
        invariant
            i <= results@.len(),
            forall|j: int| 0 <= j < i ==> (#[trigger] results@[j]).success,
        decreases results@.len() - i,
    {
        if !results[i].success {
            let msg = match &results[i].error {
                Some(e) => e.clone(),
                None => owned("unknown error"),
            };
            return Some(msg);
        }
        i = i + 1;
    }
    None
}

} // verus!
