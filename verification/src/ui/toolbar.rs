use vstd::prelude::*;

use crate::geom::{in_i32, max_int, Rect};

verus! {

/// Available tools in the toolbar.
#[derive(Debug, Clone, Copy, PartialEq, Eq, Structural, Default)]
pub enum Tool {
    #[default]
    Move,
    AnnotationEdit,
    Pen,
    Line,
    Rect,
    Ellipse,
    Mosaic,
}

/// The tools that draw annotations.
pub open spec fn spec_is_drawing(t: Tool) -> bool {
    t is Pen || t is Line || t is Rect || t is Ellipse || t is Mosaic
}

/// Toolbar width in logical pixels.
pub const TOOLBAR_WIDTH: i32 = 420;

/// Toolbar height in logical pixels.
pub const TOOLBAR_HEIGHT: i32 = 36;

/// Gap between the selection and the toolbar in logical pixels.
pub const TOOLBAR_MARGIN: i32 = 4;

impl Tool {
    /// Returns true if this tool draws annotations (Pen, Line, Rect, Ellipse, Mosaic).
    pub fn is_drawing(&self) -> (b: bool)
        ensures
            b == spec_is_drawing(*self),
    {
        match self {
            Tool::Pen | Tool::Line | Tool::Rect | Tool::Ellipse | Tool::Mosaic => true,
            _ => false,
        }
    }

    /// All tools in toolbar order.
    pub fn all() -> (tools: [Tool; 7])
        ensures
            tools@ == seq![
                Tool::Move,
                Tool::AnnotationEdit,
                Tool::Pen,
                Tool::Line,
                Tool::Rect,
                Tool::Ellipse,
                Tool::Mosaic,
            ],
    {
        [Tool::Move, Tool::AnnotationEdit, Tool::Pen, Tool::Line, Tool::Rect, Tool::Ellipse, Tool::Mosaic]
    }

    /// Display label for the tool.
    pub fn label(&self) -> (s: &'static str)
        ensures
            *self == Tool::Move ==> s@ == "\u{2195} Move"@,
            *self == Tool::AnnotationEdit ==> s@ == "\u{270E} Edit"@,
            *self == Tool::Pen ==> s@ == "\u{270F} Pen"@,
            *self == Tool::Line ==> s@ == "\u{2571} Line"@,
            *self == Tool::Rect ==> s@ == "\u{25AD} Rect"@,
            *self == Tool::Ellipse ==> s@ == "\u{2B2D} Ellipse"@,
            *self == Tool::Mosaic ==> s@ == "\u{25A3} Mosaic"@,
    {
        match self {
            Tool::Move => "\u{2195} Move",
            Tool::AnnotationEdit => "\u{270E} Edit",
            Tool::Pen => "\u{270F} Pen",
            Tool::Line => "\u{2571} Line",
            Tool::Rect => "\u{25AD} Rect",
            Tool::Ellipse => "\u{2B2D} Ellipse",
            Tool::Mosaic => "\u{25A3} Mosaic",
        }
    }
}

/// Top-left corner of a `tw` x `th` toolbar placed next to `selection`:
/// below-right of it when that fits on the screen, else above-right, else
/// inside its bottom-right corner.
pub open spec fn spec_place_toolbar(selection: Rect, screen: Rect, tw: int, th: int, margin: int) -> (int, int) {
    let x = max_int(selection.spec_right() - tw, screen.x as int);
    let below = selection.spec_bottom() + margin;
    let above = selection.y - margin - th;
    if below + th <= screen.spec_bottom() && x + tw <= screen.spec_right() {
        (x, below)
    } else if above >= screen.y && x + tw <= screen.spec_right() {
        (x, above)
    } else {
        (
            max_int(selection.spec_right() - tw, selection.x as int),
            max_int(selection.spec_bottom() - th, selection.y as int),
        )
    }
}

/// Compute the toolbar position relative to the selection rect.
///
/// Position priority:
/// 1. Below-right of selection (preferred)
/// 2. Above-right of selection (when below has no space)
/// 3. Inside bottom-right of selection (when neither above nor below has space)
///
/// `selection` is in the local coordinate system of the output.
/// `screen` is the output's logical bounds (typically (0, 0, w, h)).
/// `toolbar_size` is (width, height) of the toolbar in logical pixels.
/// `margin` is the gap between selection and toolbar in logical pixels.
///
/// Returns the top-left position of the toolbar in the same coordinate system.
pub fn place_toolbar(selection: &Rect, screen: &Rect, toolbar_size: (i32, i32), margin: i32) -> (p: (i64, i64))
    ensures
        (p.0 as int, p.1 as int) == spec_place_toolbar(
            *selection,
            *screen,
            toolbar_size.0 as int,
            toolbar_size.1 as int,
            margin as int,
        ),
{
    let (tw, th) = (toolbar_size.0 as i64, toolbar_size.1 as i64);
    let m = margin as i64;
    let sel_right = selection.x as i64 + selection.w as i64;
    let sel_bottom = selection.y as i64 + selection.h as i64;
    let sel_top = selection.y as i64;
    let sel_left = selection.x as i64;
    let screen_bottom = screen.y as i64 + screen.h as i64;
    let screen_right = screen.x as i64 + screen.w as i64;

    let x = if sel_right - tw >= screen.x as i64 { sel_right - tw } else { screen.x as i64 };
    let y = sel_bottom + m;
    if y + th <= screen_bottom && x + tw <= screen_right {
        return (x, y);
    }
    let y = sel_top - m - th;
    if y >= screen.y as i64 && x + tw <= screen_right {
        return (x, y);
    }
    let x = if sel_right - tw >= sel_left { sel_right - tw } else { sel_left };
    let y = if sel_bottom - th >= sel_top { sel_bottom - th } else { sel_top };
    (x, y)
}

/// The output's own bounds, from its logical size.
pub open spec fn output_screen(output_size: (u32, u32)) -> Rect {
    Rect { x: 0, y: 0, w: output_size.0 as i32, h: output_size.1 as i32 }
}

/// The toolbar's placement for `sel`, in the output's local coordinates.
pub open spec fn local_toolbar_pos(sel: Rect, output_pos: (i32, i32), output_size: (u32, u32)) -> (int, int) {
    spec_place_toolbar(
        sel.spec_translate(-output_pos.0, -output_pos.1),
        output_screen(output_size),
        TOOLBAR_WIDTH as int,
        TOOLBAR_HEIGHT as int,
        TOOLBAR_MARGIN as int,
    )
}

/// The toolbar rect for `sel` can be expressed in `i32` coordinates.
pub open spec fn toolbar_rect_ok(sel: Rect, output_pos: (i32, i32), output_size: (u32, u32)) -> bool {
    let p = local_toolbar_pos(sel, output_pos, output_size);
    &&& in_i32(sel.x - output_pos.0) && in_i32(sel.y - output_pos.1)
    &&& in_i32(p.0) && in_i32(p.1)
    &&& in_i32(p.0 + output_pos.0) && in_i32(p.1 + output_pos.1)
}

/// Compute the toolbar bounding rect in global logical coordinates.
/// Returns None if there is no selection.
pub fn toolbar_rect(selection: Option<Rect>, output_pos: (i32, i32), output_size: (u32, u32)) -> (r: Option<Rect>)
    requires
        selection matches Some(sel) ==> toolbar_rect_ok(sel, output_pos, output_size),
    ensures
        selection is None ==> r is None,
        selection matches Some(sel) ==> r == Some(
            Rect::from_ints(
                local_toolbar_pos(sel, output_pos, output_size).0 + output_pos.0,
                local_toolbar_pos(sel, output_pos, output_size).1 + output_pos.1,
                TOOLBAR_WIDTH as int,
                TOOLBAR_HEIGHT as int,
            ),
        ),
{
    let sel = match selection {
        Some(s) => s,
        None => return None,
    };
    let screen = Rect { x: 0, y: 0, w: output_size.0 as i32, h: output_size.1 as i32 };
    let local_sel = Rect { x: sel.x - output_pos.0, y: sel.y - output_pos.1, w: sel.w, h: sel.h };
    let (tx, ty) = place_toolbar(&local_sel, &screen, (TOOLBAR_WIDTH, TOOLBAR_HEIGHT), TOOLBAR_MARGIN);
    let gx = tx as i32 + output_pos.0;
    let gy = ty as i32 + output_pos.1;
    Some(Rect { x: gx, y: gy, w: TOOLBAR_WIDTH, h: TOOLBAR_HEIGHT })
}

/// Whether the toolbar rect for `sel` on this output can be expressed in
/// `i32` coordinates (what [`toolbar_rect`] needs).
pub fn toolbar_rect_fits(sel: Rect, output_pos: (i32, i32), output_size: (u32, u32)) -> (b: bool)
    ensures
        b == toolbar_rect_ok(sel, output_pos, output_size),
{
    let lx = sel.x as i64 - output_pos.0 as i64;
    let ly = sel.y as i64 - output_pos.1 as i64;
    if lx < i32::MIN as i64 || lx > i32::MAX as i64 || ly < i32::MIN as i64 || ly > i32::MAX as i64 {
        return false;
    }
    let screen = Rect { x: 0, y: 0, w: output_size.0 as i32, h: output_size.1 as i32 };
    let local_sel = Rect { x: lx as i32, y: ly as i32, w: sel.w, h: sel.h };
    let (tx, ty) = place_toolbar(&local_sel, &screen, (TOOLBAR_WIDTH, TOOLBAR_HEIGHT), TOOLBAR_MARGIN);
    if tx < i32::MIN as i64 || tx > i32::MAX as i64 || ty < i32::MIN as i64 || ty > i32::MAX as i64 {
        return false;
    }
    let gx = tx + output_pos.0 as i64;
    let gy = ty + output_pos.1 as i64;
    i32::MIN as i64 <= gx && gx <= i32::MAX as i64 && i32::MIN as i64 <= gy && gy <= i32::MAX as i64
}

/// The two outside placements never cover the selection and stay on the
/// screen horizontally, with the toolbar's own edge on the screen; the
/// inside placement starts within the selection.
pub proof fn lemma_toolbar_placement(selection: Rect, screen: Rect, tw: int, th: int, margin: int)
    requires
        margin >= 0,
        tw >= 0,
        th >= 0,
    ensures
        ({
            let (x, y) = spec_place_toolbar(selection, screen, tw, th, margin);
            let below = selection.spec_bottom() + margin;
            let above = selection.y - margin - th;
            ||| (y == below && x >= screen.x && x + tw <= screen.spec_right()
                && y + th <= screen.spec_bottom() && y >= selection.spec_bottom())
            ||| (y == above && x >= screen.x && x + tw <= screen.spec_right() && y >= screen.y
                && y + th <= selection.y)
            ||| (x >= selection.x && y >= selection.y)
        }),
        ({
            let (x, y) = spec_place_toolbar(selection, screen, tw, th, margin);
            x >= selection.spec_right() - tw
        }),
{
}

/// A `tw` x `th` toolbar at `(x, y)` lies entirely on `screen`.
pub open spec fn toolbar_on_screen(screen: Rect, x: int, y: int, tw: int, th: int) -> bool {
    screen.x <= x && x + tw <= screen.spec_right() && screen.y <= y && y + th <= screen.spec_bottom()
}

/// The placement order: the toolbar's right edge is lined up with the
/// selection's (moved right as far as needed to keep it off the screen's
/// left edge); it goes below the selection whenever it fits on the screen
/// there, above it whenever it would hang off the bottom below but fits on
/// the screen above, and inside the selection's bottom-right corner when it
/// fits at neither.
pub proof fn lemma_toolbar_prefers_below(selection: Rect, screen: Rect, tw: int, th: int, margin: int)
    ensures
        ({
            let (x, y) = spec_place_toolbar(selection, screen, tw, th, margin);
            let xr = max_int(selection.spec_right() - tw, screen.x as int);
            let below = selection.spec_bottom() + margin;
            let above = selection.y - margin - th;
            &&& toolbar_on_screen(screen, xr, below, tw, th) ==> x == xr && y == below
            &&& below + th > screen.spec_bottom() && toolbar_on_screen(screen, xr, above, tw, th) ==> x == xr && y
                == above
            &&& xr + tw > screen.spec_right() ==> x + tw == max_int(selection.spec_right(), selection.x + tw) && y
                + th == max_int(selection.spec_bottom(), selection.y + th)
            &&& below + th > screen.spec_bottom() && above < screen.y ==> x + tw == max_int(
                selection.spec_right(),
                selection.x + tw,
            ) && y + th == max_int(selection.spec_bottom(), selection.y + th)
        }),
{
}

} // verus!
