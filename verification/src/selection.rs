use vstd::prelude::*;

use crate::geom::{as_u32_int, fits_i32, in_i32, px_delta, trunc_px, Point, PointerPos, Rect};

verus! {

/// Which handle is being interacted with.
#[derive(Debug, Clone, Copy, PartialEq, Eq, Structural)]
pub enum Handle {
    TopLeft,
    Top,
    TopRight,
    Left,
    Right,
    BottomLeft,
    Bottom,
    BottomRight,
}

/// Cursor shape to display, derived from selection state + pointer position.
#[derive(Debug, Clone, Copy, PartialEq, Eq, Structural)]
pub enum CursorShape {
    Crosshair,
    Move,
    ResizeNWSE,
    ResizeNESW,
    ResizeNS,
    ResizeEW,
}

/// Active drag operation.
#[derive(Debug, Clone, Copy, PartialEq, Eq, Structural)]
pub enum DragOp {
    Creating,
    /// Press on snap preview — will become Creating on drag or Confirmed on release.
    PendingSnap { rect: Rect },
    Moving,
    Resizing(Handle),
    Extending(Handle),
}

/// Selection state: Empty → Pending (window snap preview) → Confirmed.
/// Creating is the drag-to-select intermediate.
#[derive(Debug, Clone, Copy, PartialEq, Eq, Structural)]
pub enum Selection {
    Empty,
    Pending { rect: Rect },
    Creating { rect: Rect },
    Confirmed { rect: Rect },
}

impl Selection {
    /// The rect of any state but `Empty`.
    pub open spec fn spec_rect(self) -> Option<Rect> {
        match self {
            Selection::Empty => Option::None,
            Selection::Pending { rect } => Some(rect),
            Selection::Creating { rect } => Some(rect),
            Selection::Confirmed { rect } => Some(rect),
        }
    }

    pub fn rect(&self) -> (r: Option<&Rect>)
        ensures
            r matches Some(x) ==> self.spec_rect() == Some(*x),
            r is Some <==> !(self is Empty),
    {
        match self {
            Selection::Empty => Option::None,
            Selection::Pending { rect } => Some(rect),
            Selection::Creating { rect } => Some(rect),
            Selection::Confirmed { rect } => Some(rect),
        }
    }

    pub fn is_confirmed(&self) -> (b: bool)
        ensures
            b == (self is Confirmed),
    {
        match self {
            Selection::Confirmed { .. } => true,
            _ => false,
        }
    }

    /// Returns true if this state should render resize handles.
    pub fn shows_handles(&self) -> (b: bool)
        ensures
            b == (self is Confirmed),
    {
        match self {
            Selection::Confirmed { .. } => true,
            _ => false,
        }
    }
}

/// Result of a confirm action (Enter key or double-click).
#[derive(Debug, Clone, Copy, PartialEq, Eq, Structural)]
pub enum ConfirmAction {
    /// No selection to confirm.
    NoSelection,
    /// Selection was confirmed; the caller should capture/copy.
    Confirmed { rect: Rect },
}

/// Mouse button constants (from linux/input-event-codes.h).
pub const BTN_LEFT: u32 = 0x110;

pub const BTN_RIGHT: u32 = 0x111;

/// Pixel tolerance for grabbing a resize handle of a confirmed selection.
pub const HANDLE_TOL: i32 = 6;

/// Fixed-point distance a press on a snap preview must travel before it
/// turns into a drag (two logical pixels).
pub const SNAP_DRAG_THRESHOLD: i64 = 512;

/// Integer division by two, truncating toward zero.
pub open spec fn half_toward_zero(v: int) -> int {
    if v >= 0 {
        v / 2
    } else {
        -((-v) / 2)
    }
}

/// The point `p` lies within `tol` (read unsigned) of `(hx, hy)` on both axes.
pub open spec fn near(p: Point, hx: int, hy: int, tol: i32) -> bool {
    let dx = p.x - hx;
    let dy = p.y - hy;
    &&& (if dx >= 0 { dx } else { -dx }) <= as_u32_int(tol)
    &&& (if dy >= 0 { dy } else { -dy }) <= as_u32_int(tol)
}

/// Cursor shown while grabbing a handle.
pub open spec fn spec_handle_cursor(h: Handle) -> CursorShape {
    match h {
        Handle::TopLeft | Handle::BottomRight => CursorShape::ResizeNWSE,
        Handle::TopRight | Handle::BottomLeft => CursorShape::ResizeNESW,
        Handle::Top | Handle::Bottom => CursorShape::ResizeNS,
        Handle::Left | Handle::Right => CursorShape::ResizeEW,
    }
}

pub fn handle_cursor(h: &Handle) -> (c: CursorShape)
    ensures
        c == spec_handle_cursor(*h),
{
    match h {
        Handle::TopLeft | Handle::BottomRight => CursorShape::ResizeNWSE,
        Handle::TopRight | Handle::BottomLeft => CursorShape::ResizeNESW,
        Handle::Top | Handle::Bottom => CursorShape::ResizeNS,
        Handle::Left | Handle::Right => CursorShape::ResizeEW,
    }
}

/// The first of the eight handles (corners and edge midpoints, in the
/// order TL, T, TR, L, R, BL, B, BR) within `tol` of `p`.
pub open spec fn spec_handle_at(rect: Rect, p: Point, tol: i32) -> Option<Handle> {
    let l = rect.x as int;
    let t = rect.y as int;
    let r = rect.spec_right();
    let b = rect.spec_bottom();
    let mx = half_toward_zero(l + r);
    let my = half_toward_zero(t + b);
    if near(p, l, t, tol) {
        Some(Handle::TopLeft)
    } else if near(p, mx, t, tol) {
        Some(Handle::Top)
    } else if near(p, r, t, tol) {
        Some(Handle::TopRight)
    } else if near(p, l, my, tol) {
        Some(Handle::Left)
    } else if near(p, r, my, tol) {
        Some(Handle::Right)
    } else if near(p, l, b, tol) {
        Some(Handle::BottomLeft)
    } else if near(p, mx, b, tol) {
        Some(Handle::Bottom)
    } else if near(p, r, b, tol) {
        Some(Handle::BottomRight)
    } else {
        None
    }
}

/// The handle used when a press outside the rect grows it: chosen by which
/// of the eight outer cells of the 3x3 grid around the rect holds the point.
pub open spec fn spec_extension_handle(rect: Rect, p: Point) -> Handle {
    let left = p.x < rect.x;
    let right = p.x >= rect.spec_right();
    let above = p.y < rect.y;
    let below = p.y >= rect.spec_bottom();
    if !left && !right && above && !below {
        Handle::Top
    } else if !left && !right && !above && below {
        Handle::Bottom
    } else if left && !right && !above && !below {
        Handle::Left
    } else if !left && right && !above && !below {
        Handle::Right
    } else if left && !right && above && !below {
        Handle::TopLeft
    } else if !left && right && above && !below {
        Handle::TopRight
    } else if left && !right && !above && below {
        Handle::BottomLeft
    } else if !left && right && !above && below {
        Handle::BottomRight
    } else {
        Handle::BottomRight
    }
}

/// Moving `handle` of `rect` by `(dx, dy)`: left-side handles move the left
/// edge, right-side handles the right edge, and likewise vertically.
pub open spec fn resize_ints(rect: Rect, handle: Handle, dx: int, dy: int) -> (int, int, int, int) {
    let moves_left = handle is TopLeft || handle is Left || handle is BottomLeft;
    let moves_right = handle is TopRight || handle is Right || handle is BottomRight;
    let moves_top = handle is TopLeft || handle is Top || handle is TopRight;
    let moves_bottom = handle is BottomLeft || handle is Bottom || handle is BottomRight;
    let x = if moves_left { rect.x + dx } else { rect.x as int };
    let w = if moves_left { rect.w - dx } else if moves_right { rect.w + dx } else { rect.w as int };
    let y = if moves_top { rect.y + dy } else { rect.y as int };
    let h = if moves_top { rect.h - dy } else if moves_bottom { rect.h + dy } else { rect.h as int };
    (x, y, w, h)
}

/// All four integers fit in `i32`.
pub open spec fn ints_fit(r: (int, int, int, int)) -> bool {
    in_i32(r.0) && in_i32(r.1) && in_i32(r.2) && in_i32(r.3)
}

pub open spec fn rect_of(r: (int, int, int, int)) -> Rect {
    Rect::from_ints(r.0, r.1, r.2, r.3)
}

/// Grows `rect` so it includes `p`, checking the left then the right edge,
/// then the top then the bottom edge (each check sees the earlier update).
pub open spec fn expand_ints(rect: Rect, p: Point) -> (int, int, int, int) {
    let (x1, w1) = if p.x < rect.x {
        (p.x as int, rect.w + (rect.x - p.x))
    } else {
        (rect.x as int, rect.w as int)
    };
    let w2 = if p.x >= x1 + w1 { p.x - x1 } else { w1 };
    let (y1, h1) = if p.y < rect.y {
        (p.y as int, rect.h + (rect.y - p.y))
    } else {
        (rect.y as int, rect.h as int)
    };
    let h2 = if p.y >= y1 + h1 { p.y - y1 } else { h1 };
    (x1, y1, w2, h2)
}

/// Clamps `v` into `[lo, hi]`, given `lo <= hi`.
pub open spec fn clamp_int(v: int, lo: int, hi: int) -> int {
    if v < lo {
        lo
    } else if v > hi {
        hi
    } else {
        v
    }
}

/// Position of a rect moved to `(x, y)` and kept inside `bounds` where it fits;
/// a rect larger than the bounds is pinned to their top-left edge.
pub open spec fn clamp_into(x: int, y: int, w: int, h: int, bounds: Rect) -> (int, int) {
    let hi_x = if bounds.spec_right() - w >= bounds.x { bounds.spec_right() - w } else { bounds.x as int };
    let hi_y = if bounds.spec_bottom() - h >= bounds.y { bounds.spec_bottom() - h } else { bounds.y as int };
    (clamp_int(x, bounds.x as int, hi_x), clamp_int(y, bounds.y as int, hi_y))
}

/// Rect spanned from the fixed-point press position `start` to `pos`.
pub open spec fn creating_rect(start: PointerPos, pos: PointerPos) -> Rect {
    Rect::from_ints(
        trunc_px(start.x as int),
        trunc_px(start.y as int),
        trunc_px(pos.x - start.x),
        trunc_px(pos.y - start.y),
    )
}

/// Replaces the rect of a non-`Empty` selection, keeping its variant.
pub open spec fn with_rect(sel: Selection, r: Rect) -> Selection {
    match sel {
        Selection::Empty => Selection::Empty,
        Selection::Pending { .. } => Selection::Pending { rect: r },
        Selection::Creating { .. } => Selection::Creating { rect: r },
        Selection::Confirmed { .. } => Selection::Confirmed { rect: r },
    }
}

/// [`expand_ints`], computed.
fn expand_wide(rect: &Rect, p: Point) -> (r: (i64, i64, i64, i64))
    ensures
        (r.0 as int, r.1 as int, r.2 as int, r.3 as int) == expand_ints(*rect, p),
{
    let mut x: i64 = rect.x as i64;
    let mut w: i64 = rect.w as i64;
    if (p.x as i64) < x {
        w = w + (x - p.x as i64);
        x = p.x as i64;
    }
    if p.x as i64 >= x + w {
        w = p.x as i64 - x;
    }
    let mut y: i64 = rect.y as i64;
    let mut h: i64 = rect.h as i64;
    if (p.y as i64) < y {
        h = h + (y - p.y as i64);
        y = p.y as i64;
    }
    if p.y as i64 >= y + h {
        h = p.y as i64 - y;
    }
    (x, y, w, h)
}

/// [`resize_ints`], computed.
fn resize_wide(rect: &Rect, handle: Handle, dx: i64, dy: i64) -> (r: (i64, i64, i64, i64))
    requires
        in_i32(dx as int),
        in_i32(dy as int),
    ensures
        (r.0 as int, r.1 as int, r.2 as int, r.3 as int) == resize_ints(*rect, handle, dx as int, dy as int),
{
    let mut x = rect.x as i64;
    let mut w = rect.w as i64;
    let mut y = rect.y as i64;
    let mut h = rect.h as i64;
    match handle {
        Handle::TopLeft | Handle::Left | Handle::BottomLeft => {
            x = x + dx;
            w = w - dx;
        },
        Handle::TopRight | Handle::Right | Handle::BottomRight => {
            w = w + dx;
        },
        Handle::Top | Handle::Bottom => {},
    }
    match handle {
        Handle::TopLeft | Handle::Top | Handle::TopRight => {
            y = y + dy;
            h = h - dy;
        },
        Handle::BottomLeft | Handle::Bottom | Handle::BottomRight => {
            h = h + dy;
        },
        Handle::Left | Handle::Right => {},
    }
    (x, y, w, h)
}

/// Pure selection state machine. No rendering, no Wayland — just logic.
pub struct SelectionState {
    pub selection: Selection,
    pub drag: Option<DragOp>,
    pub last_pointer: Option<PointerPos>,
    pub drag_start_rect: Option<Rect>,
    pub drag_start_pos: Option<PointerPos>,
    /// Total screen bounds (union of all outputs). Used to clamp selection on move.
    pub bounds: Option<Rect>,
}

impl SelectionState {
    /// Every drag has a recorded start position.
    pub open spec fn wf(self) -> bool {
        self.drag is Some ==> self.drag_start_pos is Some
    }

    /// Selection, drag and drag bookkeeping cleared; pointer and bounds kept.
    pub open spec fn spec_cancelled(self) -> Self {
        SelectionState {
            selection: Selection::Empty,
            drag: Option::None,
            drag_start_rect: Option::None,
            drag_start_pos: Option::None,
            ..self
        }
    }

    /// The expanded rect for a press outside a confirmed selection fits `i32`.
    pub open spec fn press_ok(self, pos: PointerPos, button: u32) -> bool {
        button == BTN_LEFT ==> match self.selection {
            Selection::Confirmed { rect } => {
                let p = pos.spec_point();
                spec_handle_at(rect, p, HANDLE_TOL) is None && !rect.spec_contains(p)
                    ==> ints_fit(expand_ints(rect, p))
            },
            _ => true,
        }
    }

    /// State and exit flag after a pointer press.
    pub open spec fn spec_press(self, pos: PointerPos, button: u32) -> (Self, bool) {
        if button == BTN_RIGHT {
            match self.selection {
                Selection::Confirmed { .. } | Selection::Creating { .. } => (self.spec_cancelled(), false),
                Selection::Pending { .. } | Selection::Empty => (self, true),
            }
        } else if button != BTN_LEFT {
            (self, false)
        } else {
            let p = pos.spec_point();
            let s2 = match self.selection {
                Selection::Pending { rect } => SelectionState {
                    drag: Some(DragOp::PendingSnap { rect }),
                    drag_start_pos: Some(pos),
                    ..self
                },
                Selection::Confirmed { rect } => match spec_handle_at(rect, p, HANDLE_TOL) {
                    Some(h) => SelectionState {
                        drag: Some(DragOp::Resizing(h)),
                        drag_start_pos: Some(pos),
                        drag_start_rect: Some(rect),
                        ..self
                    },
                    Option::None => if rect.spec_contains(p) {
                        SelectionState {
                            drag: Some(DragOp::Moving),
                            drag_start_pos: Some(pos),
                            drag_start_rect: Some(rect),
                            ..self
                        }
                    } else {
                        let expanded = rect_of(expand_ints(rect, p));
                        SelectionState {
                            drag: Some(DragOp::Extending(spec_extension_handle(rect, p))),
                            drag_start_pos: Some(pos),
                            drag_start_rect: Some(expanded),
                            selection: Selection::Confirmed { rect: expanded },
                            ..self
                        }
                    },
                },
                _ => SelectionState {
                    drag: Some(DragOp::Creating),
                    drag_start_pos: Some(pos),
                    drag_start_rect: Option::None,
                    selection: Selection::Creating { rect: Rect::from_ints(p.x as int, p.y as int, 0, 0) },
                    ..self
                },
            };
            (SelectionState { last_pointer: Some(pos), ..s2 }, false)
        }
    }

    /// The drag start values that a motion reads are present.
    pub open spec fn motion_defined(self) -> bool {
        self.last_pointer is Some ==> match self.drag {
            Some(DragOp::Creating) => self.selection is Creating ==> self.drag_start_pos is Some,
            Some(DragOp::PendingSnap { .. }) => self.drag_start_pos is Some,
            Some(_) => self.drag_start_rect is Some ==> self.drag_start_pos is Some,
            Option::None => true,
        }
    }

    /// The rect a move or resize would store fits `i32`.
    pub open spec fn motion_fits(self, pos: PointerPos) -> bool {
        self.last_pointer is Some && self.drag_start_rect is Some && self.drag_start_pos is Some ==> {
            let sr = self.drag_start_rect->0;
            let start = self.drag_start_pos->0;
            let dx = trunc_px(pos.x - start.x);
            let dy = trunc_px(pos.y - start.y);
            match self.drag {
                Some(DragOp::Moving) => self.selection is Confirmed
                    ==> in_i32(sr.x + dx) && in_i32(sr.y + dy),
                Some(DragOp::Resizing(h)) | Some(DragOp::Extending(h)) => !(self.selection is Empty)
                    ==> ints_fit(resize_ints(sr, h, dx, dy)),
                _ => true,
            }
        }
    }

    /// State after a pointer motion; `snap` is the window under the pointer.
    pub open spec fn spec_motion(self, pos: PointerPos, snap: Option<Rect>) -> Self {
        if self.last_pointer is None {
            SelectionState { last_pointer: Some(pos), ..self }
        } else {
            let start = self.drag_start_pos->0;
            let s2 = match self.drag {
                Some(DragOp::Creating) => match self.selection {
                    Selection::Creating { .. } => SelectionState {
                        selection: Selection::Creating { rect: creating_rect(start, pos) },
                        ..self
                    },
                    _ => self,
                },
                Some(DragOp::PendingSnap { .. }) => {
                    let adx = if pos.x - start.x >= 0 { pos.x - start.x } else { start.x - pos.x };
                    let ady = if pos.y - start.y >= 0 { pos.y - start.y } else { start.y - pos.y };
                    if adx > SNAP_DRAG_THRESHOLD || ady > SNAP_DRAG_THRESHOLD {
                        SelectionState {
                            drag: Some(DragOp::Creating),
                            selection: Selection::Creating { rect: creating_rect(start, pos) },
                            ..self
                        }
                    } else {
                        self
                    }
                },
                Some(DragOp::Moving) => match self.drag_start_rect {
                    Some(sr) => match self.selection {
                        Selection::Confirmed { .. } => {
                            let x = sr.x + trunc_px(pos.x - start.x);
                            let y = sr.y + trunc_px(pos.y - start.y);
                            let (cx, cy) = match self.bounds {
                                Some(b) => clamp_into(x, y, sr.w as int, sr.h as int, b),
                                Option::None => (x, y),
                            };
                            SelectionState {
                                selection: Selection::Confirmed {
                                    rect: Rect::from_ints(cx, cy, sr.w as int, sr.h as int),
                                },
                                ..self
                            }
                        },
                        _ => self,
                    },
                    Option::None => self,
                },
                Some(DragOp::Resizing(h)) | Some(DragOp::Extending(h)) => match self.drag_start_rect {
                    Some(sr) => {
                        let r = rect_of(resize_ints(
                            sr,
                            h,
                            trunc_px(pos.x - start.x),
                            trunc_px(pos.y - start.y),
                        ));
                        SelectionState { selection: with_rect(self.selection, r), ..self }
                    },
                    Option::None => self,
                },
                Option::None => match self.selection {
                    Selection::Empty | Selection::Pending { .. } => SelectionState {
                        selection: match snap {
                            Some(r) => Selection::Pending { rect: r },
                            Option::None => Selection::Empty,
                        },
                        ..self
                    },
                    _ => self,
                },
            };
            SelectionState { last_pointer: Some(pos), ..s2 }
        }
    }

    /// State after a sequence of pointer motions, each with the window under
    /// the pointer at that position, applied in order.
    pub open spec fn spec_motions(self, moves: Seq<(PointerPos, Option<Rect>)>) -> Self
        decreases moves.len(),
    {
        if moves.len() == 0 {
            self
        } else {
            self.spec_motions(moves.drop_last()).spec_motion(moves.last().0, moves.last().1)
        }
    }

    /// The rect a release normalizes can be normalized within `i32`.
    pub open spec fn release_ok(self, button: u32) -> bool {
        button == BTN_LEFT ==> match self.drag {
            Some(DragOp::Creating) => match self.selection {
                Selection::Creating { rect } => rect.normalize_ok(),
                _ => true,
            },
            Some(DragOp::Resizing(_)) | Some(DragOp::Extending(_)) => match self.selection {
                Selection::Confirmed { rect } => rect.normalize_ok(),
                _ => true,
            },
            _ => true,
        }
    }

    /// State after a pointer release.
    pub open spec fn spec_release(self, button: u32) -> Self {
        if button != BTN_LEFT {
            self
        } else {
            let sel = match self.drag {
                Some(DragOp::Creating) => match self.selection {
                    Selection::Creating { rect } => {
                        let n = rect.spec_normalize();
                        if n.w >= 2 && n.h >= 2 {
                            Selection::Confirmed { rect: n }
                        } else {
                            Selection::Empty
                        }
                    },
                    _ => self.selection,
                },
                Some(DragOp::PendingSnap { rect }) => Selection::Confirmed { rect },
                Some(DragOp::Resizing(_)) | Some(DragOp::Extending(_)) => match self.selection {
                    Selection::Confirmed { rect } => {
                        let n = rect.spec_normalize();
                        if n.spec_is_empty() {
                            Selection::Empty
                        } else {
                            Selection::Confirmed { rect: n }
                        }
                    },
                    _ => self.selection,
                },
                _ => self.selection,
            };
            SelectionState {
                selection: sel,
                drag: Option::None,
                drag_start_rect: Option::None,
                drag_start_pos: Option::None,
                ..self
            }
        }
    }

    /// Cursor for the pointer at `pos`.
    pub open spec fn spec_cursor(self, pos: PointerPos) -> CursorShape {
        match self.drag {
            Some(DragOp::Creating) | Some(DragOp::PendingSnap { .. }) => CursorShape::Crosshair,
            Some(DragOp::Moving) => CursorShape::Move,
            Some(DragOp::Resizing(h)) | Some(DragOp::Extending(h)) => spec_handle_cursor(h),
            Option::None => match self.selection {
                Selection::Confirmed { rect } => {
                    let p = pos.spec_point();
                    match spec_handle_at(rect, p, HANDLE_TOL) {
                        Some(h) => spec_handle_cursor(h),
                        Option::None => if rect.spec_contains(p) {
                            CursorShape::Move
                        } else {
                            CursorShape::Crosshair
                        },
                    }
                },
                _ => CursorShape::Crosshair,
            },
        }
    }

    pub fn new() -> (s: Self)
        ensures
            s.selection == Selection::Empty,
            s.drag is None,
            s.last_pointer is None,
            s.drag_start_rect is None,
            s.drag_start_pos is None,
            s.bounds is None,
    {
        Self {
            selection: Selection::Empty,
            drag: None,
            last_pointer: None,
            drag_start_rect: None,
            drag_start_pos: None,
            bounds: None,
        }
    }

    /// Hit-test the 8 handles of a confirmed selection.
    /// Returns the handle under the pointer, if any.
    pub fn handle_at(rect: &Rect, pos: Point, tolerance: i32) -> (h: Option<Handle>)
        ensures
            h == spec_handle_at(*rect, pos, tolerance),
    {
        let l = rect.x as i64;
        let t = rect.y as i64;
        let r = rect.x as i64 + rect.w as i64;
        let b = rect.y as i64 + rect.h as i64;
        let mx = half_i64(l + r);
        let my = half_i64(t + b);
        let tol: i64 = if tolerance >= 0 { tolerance as i64 } else { tolerance as i64 + 0x1_0000_0000 };
        let px = pos.x as i64;
        let py = pos.y as i64;
        if near_i64(px, py, l, t, tol) {
            Some(Handle::TopLeft)
        } else if near_i64(px, py, mx, t, tol) {
            Some(Handle::Top)
        } else if near_i64(px, py, r, t, tol) {
            Some(Handle::TopRight)
        } else if near_i64(px, py, l, my, tol) {
            Some(Handle::Left)
        } else if near_i64(px, py, r, my, tol) {
            Some(Handle::Right)
        } else if near_i64(px, py, l, b, tol) {
            Some(Handle::BottomLeft)
        } else if near_i64(px, py, mx, b, tol) {
            Some(Handle::Bottom)
        } else if near_i64(px, py, r, b, tol) {
            Some(Handle::BottomRight)
        } else {
            None
        }
    }

    /// Determine which "virtual handle" to use when extending from outside the selection.
    /// Based on the 9-grid position of the click relative to the rect.
    pub fn extension_handle(rect: &Rect, pos: Point) -> (h: Handle)
        ensures
            h == spec_extension_handle(*rect, pos),
    {
        let right_edge = rect.x as i64 + rect.w as i64;
        let bottom_edge = rect.y as i64 + rect.h as i64;
        let left = pos.x < rect.x;
        let right = pos.x as i64 >= right_edge;
        let above = pos.y < rect.y;
        let below = pos.y as i64 >= bottom_edge;
        match (left, right, above, below) {
            (false, false, true, false) => Handle::Top,
            (false, false, false, true) => Handle::Bottom,
            (true, false, false, false) => Handle::Left,
            (false, true, false, false) => Handle::Right,
            (true, false, true, false) => Handle::TopLeft,
            (false, true, true, false) => Handle::TopRight,
            (true, false, false, true) => Handle::BottomLeft,
            (false, true, false, true) => Handle::BottomRight,
            _ => Handle::BottomRight,
        }
    }

    /// Apply a resize operation by moving a handle edge.
    pub fn resize_with_handle(rect: &Rect, handle: Handle, dx: i32, dy: i32) -> (r: Rect)
        requires
            ints_fit(resize_ints(*rect, handle, dx as int, dy as int)),
        ensures
            r == rect_of(resize_ints(*rect, handle, dx as int, dy as int)),
    {
        let mut r = *rect;
        match handle {
            Handle::TopLeft | Handle::Left | Handle::BottomLeft => {
                r.x = r.x + dx;
                r.w = r.w - dx;
            },
            Handle::TopRight | Handle::Right | Handle::BottomRight => {
                r.w = r.w + dx;
            },
            Handle::Top | Handle::Bottom => {},
        }
        match handle {
            Handle::TopLeft | Handle::Top | Handle::TopRight => {
                r.y = r.y + dy;
                r.h = r.h - dy;
            },
            Handle::BottomLeft | Handle::Bottom | Handle::BottomRight => {
                r.h = r.h + dy;
            },
            Handle::Left | Handle::Right => {},
        }
        r
    }

    /// Expand a rect to include a point, using the same directional logic as extension.
    pub fn expand_to_include(rect: &Rect, p: Point) -> (r: Rect)
        requires
            ints_fit(expand_ints(*rect, p)),
        ensures
            r == rect_of(expand_ints(*rect, p)),
    {
        let (x, y, w, h) = expand_wide(rect, p);
        Rect { x: x as i32, y: y as i32, w: w as i32, h: h as i32 }
    }

    /// Whether a press at `pos` with `button` can be handled within `i32`
    /// (what [`SelectionState::on_pointer_press`] needs).
    pub fn can_press(&self, pos: PointerPos, button: u32) -> (b: bool)
        ensures
            b == self.press_ok(pos, button),
    {
        if button != BTN_LEFT {
            return true;
        }
        match self.selection {
            Selection::Confirmed { rect } => {
                let p = pos.to_point();
                if Self::handle_at(&rect, p, HANDLE_TOL).is_some() || rect.contains(p) {
                    true
                } else {
                    let (x, y, w, h) = expand_wide(&rect, p);
                    fits_i32(x) && fits_i32(y) && fits_i32(w) && fits_i32(h)
                }
            },
            _ => true,
        }
    }

    /// Whether a motion to `pos` can be handled within `i32`
    /// (what [`SelectionState::on_pointer_motion`] needs besides well-formedness).
    pub fn can_move_to(&self, pos: PointerPos) -> (b: bool)
        ensures
            b == self.motion_fits(pos),
    {
        if self.last_pointer.is_none() {
            return true;
        }
        let sr = match self.drag_start_rect {
            Some(r) => r,
            None => return true,
        };
        let start = match self.drag_start_pos {
            Some(s) => s,
            None => return true,
        };
        let dx = px_delta(start.x, pos.x);
        let dy = px_delta(start.y, pos.y);
        match self.drag {
            Some(DragOp::Moving) => match self.selection {
                Selection::Confirmed { .. } => fits_i32(sr.x as i64 + dx as i64) && fits_i32(sr.y as i64 + dy as i64),
                _ => true,
            },
            Some(DragOp::Resizing(h)) | Some(DragOp::Extending(h)) => match self.selection {
                Selection::Empty => true,
                _ => {
                    let (x, y, w, hh) = resize_wide(&sr, h, dx as i64, dy as i64);
                    fits_i32(x) && fits_i32(y) && fits_i32(w) && fits_i32(hh)
                },
            },
            _ => true,
        }
    }

    /// Whether a release of `button` can be handled within `i32`
    /// (what [`SelectionState::on_pointer_release`] needs).
    pub fn can_release(&self, button: u32) -> (b: bool)
        ensures
            b == self.release_ok(button),
    {
        if button != BTN_LEFT {
            return true;
        }
        match self.drag {
            Some(DragOp::Creating) => match self.selection {
                Selection::Creating { rect } => rect.can_normalize(),
                _ => true,
            },
            Some(DragOp::Resizing(_)) | Some(DragOp::Extending(_)) => match self.selection {
                Selection::Confirmed { rect } => rect.can_normalize(),
                _ => true,
            },
            _ => true,
        }
    }

    /// Handle a pointer press event.
    /// Returns true if the overlay should exit (right-click with no selection).
    pub fn on_pointer_press(&mut self, pos: PointerPos, button: u32) -> (exit: bool)
        requires
            old(self).press_ok(pos, button),
        ensures
            (*final(self), exit) == old(self).spec_press(pos, button),
    {
        if button == BTN_RIGHT {
            match self.selection {
                Selection::Confirmed { .. } | Selection::Creating { .. } => {
                    self.cancel();
                    return false;
                },
                Selection::Pending { .. } => {
                    return true;
                },
                Selection::Empty => {
                    return true;
                },
            }
        }
        if button != BTN_LEFT {
            return false;
        }
        let p = pos.to_point();
        match self.selection {
            Selection::Pending { rect } => {
                self.drag = Some(DragOp::PendingSnap { rect });
                self.drag_start_pos = Some(pos);
            },
            Selection::Confirmed { rect } => {
                if let Some(handle) = Self::handle_at(&rect, p, HANDLE_TOL) {
                    self.drag = Some(DragOp::Resizing(handle));
                    self.drag_start_pos = Some(pos);
                    self.drag_start_rect = Some(rect);
                } else if rect.contains(p) {
                    self.drag = Some(DragOp::Moving);
                    self.drag_start_pos = Some(pos);
                    self.drag_start_rect = Some(rect);
                } else {
                    let handle = Self::extension_handle(&rect, p);
                    let expanded = Self::expand_to_include(&rect, p);
                    self.drag = Some(DragOp::Extending(handle));
                    self.drag_start_pos = Some(pos);
                    self.drag_start_rect = Some(expanded);
                    self.selection = Selection::Confirmed { rect: expanded };
                }
            },
            _ => {
                self.drag = Some(DragOp::Creating);
                self.drag_start_pos = Some(pos);
                self.drag_start_rect = None;
                self.selection = Selection::Creating { rect: Rect { x: p.x, y: p.y, w: 0, h: 0 } };
            },
        }
        self.last_pointer = Some(pos);
        false
    }

    /// Handle a pointer motion event.
    /// `snap_rect`: the window under the pointer (for snap preview), if any.
    /// Only used when no drag is active and selection is Empty/Pending.
    pub fn on_pointer_motion(&mut self, pos: PointerPos, snap_rect: Option<Rect>)
        requires
            old(self).motion_defined(),
            old(self).motion_fits(pos),
        ensures
            *final(self) == old(self).spec_motion(pos, snap_rect),
    {
        if self.last_pointer.is_none() {
            self.last_pointer = Some(pos);
            return;
        }
        match self.drag {
            Some(DragOp::Creating) => {
                if let Selection::Creating { .. } = self.selection {
                    let start = self.drag_start_pos.unwrap();
                    let r = Self::creating(start, pos);
                    self.selection = Selection::Creating { rect: r };
                }
            },
            Some(DragOp::PendingSnap { .. }) => {
                let start = self.drag_start_pos.unwrap();
                let dx = pos.x as i64 - start.x as i64;
                let dy = pos.y as i64 - start.y as i64;
                let adx = if dx >= 0 { dx } else { -dx };
                let ady = if dy >= 0 { dy } else { -dy };
                if adx > SNAP_DRAG_THRESHOLD || ady > SNAP_DRAG_THRESHOLD {
                    self.drag = Some(DragOp::Creating);
                    let r = Self::creating(start, pos);
                    self.selection = Selection::Creating { rect: r };
                }
            },
            Some(DragOp::Moving) => {
                if let Some(sr) = self.drag_start_rect {
                    if let Selection::Confirmed { .. } = self.selection {
                        let start = self.drag_start_pos.unwrap();
                        let x = sr.x as i64 + px_delta(start.x, pos.x) as i64;
                        let y = sr.y as i64 + px_delta(start.y, pos.y) as i64;
                        let (cx, cy) = match self.bounds {
                            Some(b) => clamp_into_exec(x, y, sr.w as i64, sr.h as i64, &b),
                            None => (x, y),
                        };
                        self.selection = Selection::Confirmed {
                            rect: Rect { x: cx as i32, y: cy as i32, w: sr.w, h: sr.h },
                        };
                    }
                }
            },
            Some(DragOp::Resizing(handle)) | Some(DragOp::Extending(handle)) => {
                if let Some(sr) = self.drag_start_rect {
                    let start = self.drag_start_pos.unwrap();
                    let dx = px_delta(start.x, pos.x);
                    let dy = px_delta(start.y, pos.y);
                    match self.selection {
                        Selection::Confirmed { .. } => {
                            let r = Self::resize_with_handle(&sr, handle, dx, dy);
                            self.selection = Selection::Confirmed { rect: r };
                        },
                        Selection::Creating { .. } => {
                            let r = Self::resize_with_handle(&sr, handle, dx, dy);
                            self.selection = Selection::Creating { rect: r };
                        },
                        Selection::Pending { .. } => {
                            let r = Self::resize_with_handle(&sr, handle, dx, dy);
                            self.selection = Selection::Pending { rect: r };
                        },
                        Selection::Empty => {},
                    }
                }
            },
            None => {
                match self.selection {
                    Selection::Empty | Selection::Pending { .. } => {
                        self.selection = match snap_rect {
                            Some(r) => Selection::Pending { rect: r },
                            None => Selection::Empty,
                        };
                    },
                    _ => {},
                }
            },
        }
        self.last_pointer = Some(pos);
    }

    /// The rect spanned by a drag from `start` to `pos`, in whole pixels.
    fn creating(start: PointerPos, pos: PointerPos) -> (r: Rect)
        ensures
            r == creating_rect(start, pos),
    {
        let s = start.to_point();
        let w = px_delta(start.x, pos.x);
        let h = px_delta(start.y, pos.y);
        Rect { x: s.x, y: s.y, w, h }
    }

    /// Handle a pointer release event.
    pub fn on_pointer_release(&mut self, _pos: PointerPos, button: u32)
        requires
            old(self).release_ok(button),
        ensures
            *final(self) == old(self).spec_release(button),
    {
        if button != BTN_LEFT {
            return;
        }
        match self.drag {
            Some(DragOp::Creating) => {
                if let Selection::Creating { rect } = self.selection {
                    let normalized = rect.normalize();
                    if normalized.w >= 2 && normalized.h >= 2 {
                        self.selection = Selection::Confirmed { rect: normalized };
                    } else {
                        self.selection = Selection::Empty;
                    }
                }
            },
            Some(DragOp::PendingSnap { rect }) => {
                self.selection = Selection::Confirmed { rect };
            },
            Some(DragOp::Resizing(_)) | Some(DragOp::Extending(_)) => {
                if let Selection::Confirmed { rect } = self.selection {
                    let n = rect.normalize();
                    if n.is_empty() {
                        self.selection = Selection::Empty;
                    } else {
                        self.selection = Selection::Confirmed { rect: n };
                    }
                }
            },
            Some(DragOp::Moving) => {},
            None => {},
        }
        self.drag = None;
        self.drag_start_rect = None;
        self.drag_start_pos = None;
    }

    /// State and exit flag after Escape: Confirmed, Creating and Pending
    /// all become Empty (with no drag); Pending and Empty signal exit.
    pub open spec fn spec_escape(self) -> (Self, bool) {
        match self.selection {
            Selection::Confirmed { .. } | Selection::Creating { .. } => (self.spec_cancelled(), false),
            Selection::Pending { .. } => (self.spec_cancelled(), true),
            Selection::Empty => (self, true),
        }
    }

    /// Cancel: Confirmed → Empty, Creating → Empty, Pending → Empty and
    /// signal exit, Empty → signal exit.
    /// Returns true if the overlay should exit.
    pub fn on_escape(&mut self) -> (exit: bool)
        ensures
            (*final(self), exit) == old(self).spec_escape(),
            exit == (old(self).selection is Pending || old(self).selection is Empty),
            final(self).selection is Empty,
            old(self).selection is Empty ==> *final(self) == *old(self),
    {
        match self.selection {
            Selection::Confirmed { .. } | Selection::Creating { .. } => {
                self.cancel();
                false
            },
            Selection::Pending { .. } => {
                self.cancel();
                true
            },
            Selection::Empty => true,
        }
    }

    /// Try to confirm the selection (Enter key).
    pub fn on_enter(&self) -> (a: ConfirmAction)
        ensures
            a == (match self.selection {
                Selection::Confirmed { rect } => ConfirmAction::Confirmed { rect },
                _ => ConfirmAction::NoSelection,
            }),
    {
        match &self.selection {
            Selection::Confirmed { rect } => ConfirmAction::Confirmed { rect: *rect },
            _ => ConfirmAction::NoSelection,
        }
    }

    /// Cancel any selection and drag.
    pub fn cancel(&mut self)
        ensures
            *final(self) == old(self).spec_cancelled(),
    {
        self.selection = Selection::Empty;
        self.drag = None;
        self.drag_start_rect = None;
        self.drag_start_pos = None;
    }

    /// Compute the cursor shape for the current pointer position.
    pub fn cursor_for_position(&self, pos: PointerPos) -> (c: CursorShape)
        ensures
            c == self.spec_cursor(pos),
    {
        match self.drag {
            Some(DragOp::Creating) | Some(DragOp::PendingSnap { .. }) => {
                return CursorShape::Crosshair;
            },
            Some(DragOp::Moving) => {
                return CursorShape::Move;
            },
            Some(DragOp::Resizing(h)) | Some(DragOp::Extending(h)) => {
                return handle_cursor(&h);
            },
            None => {},
        }
        let p = pos.to_point();
        match &self.selection {
            Selection::Confirmed { rect } => {
                if let Some(h) = Self::handle_at(rect, p, HANDLE_TOL) {
                    handle_cursor(&h)
                } else if rect.contains(p) {
                    CursorShape::Move
                } else {
                    CursorShape::Crosshair
                }
            },
            _ => CursorShape::Crosshair,
        }
    }
}


/// Every operation of the state machine keeps the invariant that a drag in
/// progress has a recorded start position; and that invariant is all a
/// motion needs for its drag bookkeeping to be present.
pub proof fn lemma_ops_keep_wf(s: SelectionState, pos: PointerPos, button: u32, snap: Option<Rect>)
    requires
        s.wf(),
    ensures
        s.motion_defined(),
        s.spec_press(pos, button).0.wf(),
        s.spec_motion(pos, snap).wf(),
        s.spec_release(button).wf(),
        s.spec_cancelled().wf(),
{
}

/// Dragging from `a` to `b` with no selection yields the normalized rect
/// spanned by the two pixel positions when it is at least 2x2, and no
/// selection otherwise. No drag is left in progress.
pub proof fn lemma_drag_creates_selection(s: SelectionState, a: PointerPos, b: PointerPos, snap: Option<Rect>)
    requires
        s.selection is Empty,
        s.drag is None,
    ensures
        ({
            let s1 = s.spec_press(a, BTN_LEFT).0;
            let s2 = s1.spec_motion(b, snap);
            let s3 = s2.spec_release(BTN_LEFT);
            let n = creating_rect(a, b).spec_normalize();
            &&& s.press_ok(a, BTN_LEFT)
            &&& s1.selection is Creating
            &&& s1.motion_defined() && s1.motion_fits(b)
            &&& s2.release_ok(BTN_LEFT)
            &&& s3.selection == (if n.w >= 2 && n.h >= 2 {
                Selection::Confirmed { rect: n }
            } else {
                Selection::Empty
            })
            &&& s3.drag is None
        }),
{
    let s1 = s.spec_press(a, BTN_LEFT).0;
    let s2 = s1.spec_motion(b, snap);
    let r = creating_rect(a, b);
    assert(s2.selection == Selection::Creating { rect: r });
    assert(r.normalize_ok());
}

/// A click (press and release, with at most a two-pixel wobble in between)
/// on a snap preview confirms exactly the previewed rect.
pub proof fn lemma_click_on_pending_confirms(s: SelectionState, a: PointerPos, b: PointerPos, r: Rect)
    requires
        s.selection == (Selection::Pending { rect: r }),
        s.drag is None,
        -SNAP_DRAG_THRESHOLD <= b.x - a.x <= SNAP_DRAG_THRESHOLD,
        -SNAP_DRAG_THRESHOLD <= b.y - a.y <= SNAP_DRAG_THRESHOLD,
    ensures
        ({
            let s1 = s.spec_press(a, BTN_LEFT).0;
            let s2 = s1.spec_motion(b, Option::None);
            &&& s1.selection == s.selection
            &&& s1.motion_defined() && s1.motion_fits(b)
            &&& s1.spec_release(BTN_LEFT).selection == (Selection::Confirmed { rect: r })
            &&& s2.spec_release(BTN_LEFT).selection == (Selection::Confirmed { rect: r })
        }),
{
}

/// A right click decides exit as Escape does and cancels a confirmed or
/// in-progress selection just like it; on a snap preview both exit, Escape
/// clearing the preview and the right click leaving it as it is.
pub proof fn lemma_right_click_is_escape(s: SelectionState, pos: PointerPos)
    ensures
        ({
            let (after, exit) = s.spec_press(pos, BTN_RIGHT);
            let (esc_after, esc_exit) = s.spec_escape();
            &&& exit == esc_exit
            &&& (!(s.selection is Pending) ==> after == esc_after)
            &&& (s.selection is Pending ==> after == s && esc_after == s.spec_cancelled())
        }),
{
}

/// Moving a confirmed selection keeps its size, and when the selection fits
/// inside the screen bounds it stays entirely inside them.
pub proof fn lemma_move_keeps_size_within_bounds(s: SelectionState, pos: PointerPos, snap: Option<Rect>)
    requires
        s.last_pointer is Some,
        s.drag == Some(DragOp::Moving),
        s.drag_start_rect is Some,
        s.drag_start_pos is Some,
        s.selection is Confirmed,
        s.motion_fits(pos),
    ensures
        ({
            let sr = s.drag_start_rect->0;
            let r = s.spec_motion(pos, snap).selection->Confirmed_rect;
            &&& s.spec_motion(pos, snap).selection is Confirmed
            &&& r.w == sr.w && r.h == sr.h
            &&& (s.bounds is Some && 0 <= sr.w <= s.bounds->0.w && 0 <= sr.h <= s.bounds->0.h ==> {
                let b = s.bounds->0;
                &&& b.x <= r.x && r.spec_right() <= b.spec_right()
                &&& b.y <= r.y && r.spec_bottom() <= b.spec_bottom()
            })
        }),
{
}

/// Pressing outside a normalized confirmed selection grows it to reach the
/// pressed pixel: the grown rect keeps the old one and has the point on or
/// inside its (closed) outline.
pub proof fn lemma_extension_covers_point(rect: Rect, p: Point)
    requires
        rect.is_normalized(),
    ensures
        ({
            let e = expand_ints(rect, p);
            &&& e.0 <= p.x <= e.0 + e.2
            &&& e.1 <= p.y <= e.1 + e.3
            &&& e.0 <= rect.x && rect.spec_right() <= e.0 + e.2
            &&& e.1 <= rect.y && rect.spec_bottom() <= e.1 + e.3
        }),
{
}

/// A left release ends any drag, and a selection it confirms after drawing
/// or resizing has non-negative extents.
pub proof fn lemma_release_ends_drag(s: SelectionState)
    requires
        s.release_ok(BTN_LEFT),
    ensures
        ({
            let t = s.spec_release(BTN_LEFT);
            &&& t.drag is None
            &&& t.drag_start_pos is None
            &&& t.drag_start_rect is None
            &&& ((s.drag == Some(DragOp::Creating) && s.selection is Creating) || (
            s.selection is Confirmed && (s.drag matches Some(DragOp::Resizing(_)) || s.drag matches Some(
                DragOp::Extending(_),
            )))) ==> (t.selection is Confirmed ==> t.selection->Confirmed_rect.is_normalized())
        }),
{
    match s.drag {
        Some(DragOp::Creating) => {
            if let Selection::Creating { rect } = s.selection {
                lemma_normalize_nonneg(rect);
            }
        },
        Some(DragOp::Resizing(_)) | Some(DragOp::Extending(_)) => {
            if let Selection::Confirmed { rect } = s.selection {
                lemma_normalize_nonneg(rect);
            }
        },
        _ => {},
    }
}

proof fn lemma_normalize_nonneg(r: Rect)
    requires
        r.normalize_ok(),
    ensures
        r.spec_normalize().is_normalized(),
{
}

/// Hovering without a drag previews the window under the pointer, and
/// clears the preview where there is none; a confirmed selection is kept.
pub proof fn lemma_snap_preview_follows_pointer(s: SelectionState, pos: PointerPos, snap: Option<Rect>)
    requires
        s.last_pointer is Some,
        s.drag is None,
    ensures
        s.spec_motion(pos, snap).selection == (match s.selection {
            Selection::Empty | Selection::Pending { .. } => match snap {
                Some(r) => Selection::Pending { rect: r },
                Option::None => Selection::Empty,
            },
            other => other,
        }),
{
}

/// While a selection is being drawn, moved, resized or extended, the state
/// after a motion depends only on where the drag started and on the latest
/// pointer position: an intermediate motion leaves no trace.
pub proof fn lemma_motion_depends_on_latest(
    s: SelectionState,
    a: PointerPos,
    b: PointerPos,
    snap_a: Option<Rect>,
    snap_b: Option<Rect>,
)
    requires
        s.last_pointer is Some,
        s.drag is Some,
        !(s.drag matches Some(DragOp::PendingSnap { .. })),
    ensures
        s.spec_motion(a, snap_a).spec_motion(b, snap_b) == s.spec_motion(b, snap_b),
{
}

/// Motions keep a drag other than a pending snap going, unchanged.
proof fn lemma_motions_keep_drag(u: SelectionState, moves: Seq<(PointerPos, Option<Rect>)>)
    requires
        u.last_pointer is Some,
        u.drag is Some,
        !(u.drag matches Some(DragOp::PendingSnap { .. })),
    ensures
        u.spec_motions(moves).drag == u.drag,
        u.spec_motions(moves).last_pointer is Some,
    decreases moves.len(),
{
    if moves.len() > 0 {
        lemma_motions_keep_drag(u, moves.drop_last());
    }
}

/// After a left press that starts drawing, moving, resizing or extending a
/// selection, the state after any number of motions and then a motion to
/// `b` is the state after the motion to `b` alone: the result depends only
/// on where the drag started and where the pointer is now.
pub proof fn lemma_drag_follows_latest_position(
    s: SelectionState,
    start: PointerPos,
    moves: Seq<(PointerPos, Option<Rect>)>,
    b: PointerPos,
    snap_b: Option<Rect>,
)
    requires
        !(s.selection is Pending),
    ensures
        ({
            let s1 = s.spec_press(start, BTN_LEFT).0;
            s1.spec_motions(moves).spec_motion(b, snap_b) == s1.spec_motion(b, snap_b)
        }),
    decreases moves.len(),
{
    let s1 = s.spec_press(start, BTN_LEFT).0;
    if moves.len() > 0 {
        lemma_drag_follows_latest_position(s, start, moves.drop_last(), b, snap_b);
        lemma_motions_keep_drag(s1, moves.drop_last());
        let w = s1.spec_motions(moves.drop_last());
        lemma_motion_depends_on_latest(w, moves.last().0, b, moves.last().1, snap_b);
    }
}

/// During a drag the cursor does not depend on where the pointer is, and
/// pointer motions keep a drag going and its cursor unchanged.
proof fn lemma_motions_keep_drag_cursor(
    u: SelectionState,
    moves: Seq<(PointerPos, Option<Rect>)>,
    q: PointerPos,
    q0: PointerPos,
)
    requires
        u.drag is Some,
    ensures
        u.spec_motions(moves).drag is Some,
        u.spec_motions(moves).spec_cursor(q) == u.spec_cursor(q0),
    decreases moves.len(),
{
    if moves.len() > 0 {
        lemma_motions_keep_drag_cursor(u, moves.drop_last(), q, q0);
        let v = u.spec_motions(moves.drop_last());
        assert(v.spec_cursor(q) == u.spec_cursor(q0));
    }
}

/// From a left press until the release, the cursor is fixed by what the
/// press grabbed, wherever the pointer goes: the move cursor for a press
/// inside a confirmed selection, the handle's resize cursor for a press on a
/// handle (or on the handle a press outside it extends), and the crosshair
/// when a selection is being drawn.
pub proof fn lemma_cursor_during_drag(
    s: SelectionState,
    p: PointerPos,
    moves: Seq<(PointerPos, Option<Rect>)>,
    q: PointerPos,
)
    ensures
        s.spec_press(p, BTN_LEFT).0.spec_motions(moves).spec_cursor(q) == (match s.selection {
            Selection::Confirmed { rect } => match spec_handle_at(rect, p.spec_point(), HANDLE_TOL) {
                Some(h) => spec_handle_cursor(h),
                Option::None => if rect.spec_contains(p.spec_point()) {
                    CursorShape::Move
                } else {
                    spec_handle_cursor(spec_extension_handle(rect, p.spec_point()))
                },
            },
            _ => CursorShape::Crosshair,
        }),
{
    let s1 = s.spec_press(p, BTN_LEFT).0;
    assert(s1.drag is Some);
    lemma_motions_keep_drag_cursor(s1, moves, q, q);
}

/// Where a handle sits on `rect`: its corners, and the midpoints of its edges.
pub open spec fn handle_anchor(rect: Rect, h: Handle) -> (int, int) {
    let l = rect.x as int;
    let t = rect.y as int;
    let r = rect.spec_right();
    let b = rect.spec_bottom();
    let mx = half_toward_zero(l + r);
    let my = half_toward_zero(t + b);
    match h {
        Handle::TopLeft => (l, t),
        Handle::Top => (mx, t),
        Handle::TopRight => (r, t),
        Handle::Left => (l, my),
        Handle::Right => (r, my),
        Handle::BottomLeft => (l, b),
        Handle::Bottom => (mx, b),
        Handle::BottomRight => (r, b),
    }
}

/// The hit test finds a handle exactly when the point is within the
/// tolerance of some handle's anchor, and the handle it returns is one whose
/// anchor is that close.
pub proof fn lemma_handle_hit_is_near_anchor(rect: Rect, p: Point, tol: i32)
    ensures
        spec_handle_at(rect, p, tol) matches Some(h) ==> near(
            p,
            handle_anchor(rect, h).0,
            handle_anchor(rect, h).1,
            tol,
        ),
        spec_handle_at(rect, p, tol) is None <==> (forall|h: Handle|
            !near(p, #[trigger] handle_anchor(rect, h).0, handle_anchor(rect, h).1, tol)),
{
    if spec_handle_at(rect, p, tol) is None {
        assert forall|h: Handle| !near(p, #[trigger] handle_anchor(rect, h).0, handle_anchor(rect, h).1, tol) by {
            match h {
                Handle::TopLeft => {},
                Handle::Top => {},
                Handle::TopRight => {},
                Handle::Left => {},
                Handle::Right => {},
                Handle::BottomLeft => {},
                Handle::Bottom => {},
                Handle::BottomRight => {},
            }
        }
    } else {
        let h = spec_handle_at(rect, p, tol)->0;
        assert(near(p, handle_anchor(rect, h).0, handle_anchor(rect, h).1, tol));
    }
}

/// A press outside a normalized rect grabs the handle on the side of the
/// press: dragging it by `(dx, dy)` moves the top edge (and only it) for a
/// press above, the bottom edge for a press below, neither for a press level
/// with the rect, and likewise the left or right edge horizontally.
pub proof fn lemma_extension_moves_pressed_side(rect: Rect, p: Point, grown: Rect, dx: int, dy: int)
    requires
        rect.is_normalized(),
        !rect.spec_contains(p),
    ensures
        ({
            let (x, y, w, h) = resize_ints(grown, spec_extension_handle(rect, p), dx, dy);
            &&& (p.y < rect.y ==> y == grown.y + dy && y + h == grown.spec_bottom())
            &&& (p.y >= rect.spec_bottom() ==> y == grown.y && y + h == grown.spec_bottom() + dy)
            &&& (rect.y <= p.y < rect.spec_bottom() ==> y == grown.y && y + h == grown.spec_bottom())
            &&& (p.x < rect.x ==> x == grown.x + dx && x + w == grown.spec_right())
            &&& (p.x >= rect.spec_right() ==> x == grown.x && x + w == grown.spec_right() + dx)
            &&& (rect.x <= p.x < rect.spec_right() ==> x == grown.x && x + w == grown.spec_right())
        }),
{
}

/// Distance between two integers.
pub open spec fn dist(a: int, b: int) -> int {
    if a >= b { a - b } else { b - a }
}

/// Moving a selection that fits the screen bounds puts it at the position
/// inside the bounds nearest to the one the pointer asks for, on each axis.
pub proof fn lemma_clamp_into_nearest(x: int, y: int, w: int, h: int, bounds: Rect)
    requires
        0 <= w <= bounds.w,
        0 <= h <= bounds.h,
    ensures
        ({
            let (cx, cy) = clamp_into(x, y, w, h, bounds);
            &&& bounds.x <= cx && cx + w <= bounds.spec_right()
            &&& bounds.y <= cy && cy + h <= bounds.spec_bottom()
            &&& forall|z: int|
                bounds.x <= z && z + w <= bounds.spec_right() ==> #[trigger] dist(z, x) >= dist(cx, x)
            &&& forall|z: int|
                bounds.y <= z && z + h <= bounds.spec_bottom() ==> #[trigger] dist(z, y) >= dist(cy, y)
        }),
{
}

/// Dragging a confirmed selection that fits the screen bounds places it,
/// on each axis, at the position inside the bounds nearest to where the
/// pointer's travel since the press would take it.
pub proof fn lemma_move_goes_to_nearest_position(s: SelectionState, pos: PointerPos, snap: Option<Rect>)
    requires
        s.last_pointer is Some,
        s.drag == Some(DragOp::Moving),
        s.drag_start_rect is Some,
        s.drag_start_pos is Some,
        s.selection is Confirmed,
        s.motion_fits(pos),
        s.bounds is Some,
        0 <= s.drag_start_rect->0.w <= s.bounds->0.w,
        0 <= s.drag_start_rect->0.h <= s.bounds->0.h,
    ensures
        ({
            let sr = s.drag_start_rect->0;
            let start = s.drag_start_pos->0;
            let b = s.bounds->0;
            let want_x = sr.x + trunc_px(pos.x - start.x);
            let want_y = sr.y + trunc_px(pos.y - start.y);
            let r = s.spec_motion(pos, snap).selection->Confirmed_rect;
            &&& s.spec_motion(pos, snap).selection is Confirmed
            &&& b.x <= r.x && r.spec_right() <= b.spec_right()
            &&& b.y <= r.y && r.spec_bottom() <= b.spec_bottom()
            &&& forall|z: int|
                b.x <= z && z + sr.w <= b.spec_right() ==> #[trigger] dist(z, want_x) >= dist(r.x as int, want_x)
            &&& forall|z: int|
                b.y <= z && z + sr.h <= b.spec_bottom() ==> #[trigger] dist(z, want_y) >= dist(r.y as int, want_y)
        }),
{
    let sr = s.drag_start_rect->0;
    let start = s.drag_start_pos->0;
    let b = s.bounds->0;
    let want_x = sr.x + trunc_px(pos.x - start.x);
    let want_y = sr.y + trunc_px(pos.y - start.y);
    lemma_clamp_into_nearest(want_x, want_y, sr.w as int, sr.h as int, b);
}

/// Without a drag, the cursor over a handle of a confirmed selection is that
/// handle's resize cursor.
pub proof fn lemma_cursor_on_handle(s: SelectionState, pos: PointerPos, rect: Rect, h: Handle)
    requires
        s.drag is None,
        s.selection == (Selection::Confirmed { rect }),
        spec_handle_at(rect, pos.spec_point(), HANDLE_TOL) == Some(h),
    ensures
        s.spec_cursor(pos) == spec_handle_cursor(h),
{
}

/// Integer division by two, truncating toward zero.
fn half_i64(v: i64) -> (r: i64)
    requires
        -0x1_0000_0000_0000 <= v <= 0x1_0000_0000_0000,
    ensures
        r == half_toward_zero(v as int),
{
    if v >= 0 {
        v / 2
    } else {
        -((-v) / 2)
    }
}

/// `(px, py)` is within `tol` of `(hx, hy)` on both axes.
fn near_i64(px: i64, py: i64, hx: i64, hy: i64, tol: i64) -> (b: bool)
    requires
        -0x1_0000_0000_0000 <= px <= 0x1_0000_0000_0000,
        -0x1_0000_0000_0000 <= py <= 0x1_0000_0000_0000,
        -0x1_0000_0000_0000 <= hx <= 0x1_0000_0000_0000,
        -0x1_0000_0000_0000 <= hy <= 0x1_0000_0000_0000,
    ensures
        b == ({
            let dx = px - hx;
            let dy = py - hy;
            &&& (if dx >= 0 { dx } else { -dx }) <= tol
            &&& (if dy >= 0 { dy } else { -dy }) <= tol
        }),
{
    let dx = px - hx;
    let dy = py - hy;
    let adx = if dx >= 0 { dx } else { -dx };
    let ady = if dy >= 0 { dy } else { -dy };
    adx <= tol && ady <= tol
}

/// Executable form of [`clamp_into`].
fn clamp_into_exec(x: i64, y: i64, w: i64, h: i64, bounds: &Rect) -> (r: (i64, i64))
    requires
        in_i32(x as int),
        in_i32(y as int),
        i32::MIN <= w <= i32::MAX,
        i32::MIN <= h <= i32::MAX,
    ensures
        (r.0 as int, r.1 as int) == clamp_into(x as int, y as int, w as int, h as int, *bounds),
        in_i32(r.0 as int),
        in_i32(r.1 as int),
{
    let br = bounds.x as i64 + bounds.w as i64;
    let bb = bounds.y as i64 + bounds.h as i64;
    let bx = bounds.x as i64;
    let by = bounds.y as i64;
    let hi_x = if br - w >= bx { br - w } else { bx };
    let hi_y = if bb - h >= by { bb - h } else { by };
    let cx = if x < bx { bx } else if x > hi_x { hi_x } else { x };
    let cy = if y < by { by } else if y > hi_y { hi_y } else { y };
    (cx, cy)
}

} // verus!
