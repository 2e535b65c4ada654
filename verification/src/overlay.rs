use vstd::prelude::*;

use crate::compose::OutputGeometry;
use crate::geom::{in_i32, PointerPos, Rect};
use crate::kwin::windows::WindowInfo;
use crate::selection::{
    ConfirmAction, CursorShape, Selection, SelectionState, BTN_LEFT, BTN_RIGHT,
};
use crate::snap::find_snap_window;
use crate::ui::toolbar::{spec_is_drawing, toolbar_rect, toolbar_rect_ok, Tool};

verus! {

/// Which subsystem owns the current pointer drag.
#[derive(Debug, Clone, Copy, PartialEq, Eq, Structural)]
pub enum PointerOwner {
    /// No drag in progress — next Press decides ownership.
    Idle,
    /// The toolbar owns the drag.
    Toolbar,
    /// Selection/annotation system owns the drag.
    Overlay,
}

/// What the annotation layer is doing, as far as input routing cares.
#[derive(Debug, Clone, Copy, PartialEq, Eq, Structural)]
pub struct AnnotationStatus {
    /// A shape is being drawn.
    pub drawing: bool,
    /// An annotation is being moved, scaled or rotated.
    pub edit_drag: bool,
    /// An annotation is selected.
    pub has_selection: bool,
}

/// What the annotation layer must do in response to an input event.
#[derive(Debug, Clone, Copy, PartialEq, Eq, Structural)]
pub enum AnnotationCommand {
    Nothing,
    DeselectAll,
    Clear,
    Delete,
    Press { pos: PointerPos, button: u32, tool: Tool, force_new: bool, selection_rect: Option<Rect> },
    Motion { pos: PointerPos },
    Release { pos: PointerPos, button: u32 },
}

/// The outcome of a pointer press or a key press.
#[derive(Debug, Clone, Copy, PartialEq, Eq, Structural)]
pub struct InputOutcome {
    /// Forwarded to the annotation layer first.
    pub annotation: AnnotationCommand,
    /// The annotation layer is cleared after that.
    pub clear_annotations: bool,
    /// The selection to capture before exiting.
    pub confirm: Option<Rect>,
}

/// Keys the overlay reacts to.
#[derive(Debug, Clone, Copy, PartialEq, Eq, Structural)]
pub enum OverlayKey {
    Escape,
    Return,
    Delete,
    Other,
}

/// Maximum delay in milliseconds between the clicks of a double-click.
pub const DOUBLE_CLICK_MS: u32 = 300;

/// Maximum Manhattan distance between the clicks of a double-click, in
/// fixed-point units (five logical pixels, exclusive).
pub const DOUBLE_CLICK_DIST: i64 = 1280;

/// The point given as whole pixels is inside `r`.
pub open spec fn inside(r: Rect, pos: PointerPos) -> bool {
    r.spec_contains(pos.spec_point())
}

/// Two clicks `(t0, p0)` and `(t1, p1)` form a double-click: less than
/// 300 ms apart (on the wrapping millisecond clock) and less than five
/// pixels apart in Manhattan distance.
pub open spec fn spec_is_double_click(t0: u32, p0: PointerPos, t1: u32, p1: PointerPos) -> bool {
    let dt = if t1 >= t0 { t1 - t0 } else { t1 - t0 + 0x1_0000_0000 };
    let dx = if p1.x >= p0.x { p1.x - p0.x } else { p0.x - p1.x };
    let dy = if p1.y >= p0.y { p1.y - p0.y } else { p0.y - p1.y };
    dt < DOUBLE_CLICK_MS && dx + dy < DOUBLE_CLICK_DIST
}

pub fn is_double_click(t0: u32, p0: PointerPos, t1: u32, p1: PointerPos) -> (b: bool)
    ensures
        b == spec_is_double_click(t0, p0, t1, p1),
{
    let dt = t1.wrapping_sub(t0);
    let dx = p1.x as i64 - p0.x as i64;
    let dy = p1.y as i64 - p0.y as i64;
    let adx = if dx >= 0 { dx } else { -dx };
    let ady = if dy >= 0 { dy } else { -dy };
    dt < DOUBLE_CLICK_MS && adx + ady < DOUBLE_CLICK_DIST
}

/// The centre of `sel` (halves truncated toward zero) lies on output `o`.
pub open spec fn centre_on(sel: Rect, o: OutputGeometry) -> bool {
    let cx = sel.x + crate::selection::half_toward_zero(sel.w as int);
    let cy = sel.y + crate::selection::half_toward_zero(sel.h as int);
    &&& o.output_pos.0 <= cx < o.output_pos.0 + (o.width as i32)
    &&& o.output_pos.1 <= cy < o.output_pos.1 + (o.height as i32)
}

/// Find the output that should display the toolbar for the given global
/// selection rect: the first whose area holds the selection's centre.
pub fn find_toolbar_output_idx(sel: Rect, outputs: &[OutputGeometry]) -> (r: Option<usize>)
    ensures
        r is None <==> forall|i: int| 0 <= i < outputs@.len() ==> !centre_on(sel, #[trigger] outputs@[i]),
        r matches Some(i) ==> i < outputs@.len() && centre_on(sel, outputs@[i as int]) && forall|j: int|
            0 <= j < i ==> !centre_on(sel, #[trigger] outputs@[j]),
{
    let cx: i64 = sel.x as i64 + half(sel.w) as i64;
    let cy: i64 = sel.y as i64 + half(sel.h) as i64;
    let mut i: usize = 0;
    while i < outputs.len()
        invariant
            i <= outputs@.len(),
            cx == sel.x + crate::selection::half_toward_zero(sel.w as int),
            cy == sel.y + crate::selection::half_toward_zero(sel.h as int),
            forall|j: int| 0 <= j < i ==> !centre_on(sel, #[trigger] outputs@[j]),
        decreases outputs@.len() - i,
    {
        let o = &outputs[i];
        let ox = o.output_pos.0 as i64;
        let oy = o.output_pos.1 as i64;
        let w = o.width as i32;
        let h = o.height as i32;
        if cx >= ox && cx < ox + w as i64 && cy >= oy && cy < oy + h as i64 {
            return Some(i);
        }
        i = i + 1;
    }
    None
}

/// Half of `v`, truncated toward zero.
fn half(v: i32) -> (r: i32)
    ensures
        r == crate::selection::half_toward_zero(v as int),
{
    if v >= 0 {
        v / 2
    } else {
        -((-(v as i64)) / 2) as i32
    }
}

/// The selection clipped to an output, in the output's local coordinates.
pub open spec fn spec_local_selection(global: Option<Rect>, o: OutputGeometry) -> Option<Rect> {
    match global {
        Some(g) => g.spec_translate(-o.output_pos.0, -o.output_pos.1).spec_intersect(
            Rect { x: 0, y: 0, w: o.width as i32, h: o.height as i32 },
        ),
        None => None,
    }
}

/// The selection clipped to an output, in the output's local coordinates.
pub fn local_selection_rect(global: Option<Rect>, o: &OutputGeometry) -> (r: Option<Rect>)
    requires
        global matches Some(g) ==> in_i32(g.x - o.output_pos.0) && in_i32(g.y - o.output_pos.1),
    ensures
        r == spec_local_selection(global, *o),
{
    match global {
        Some(g) => {
            let local = Rect { x: g.x - o.output_pos.0, y: g.y - o.output_pos.1, w: g.w, h: g.h };
            let bounds = Rect { x: 0, y: 0, w: o.width as i32, h: o.height as i32 };
            local.intersect(&bounds)
        },
        None => None,
    }
}

/// The overlay's input state: the selection state machine, the active
/// tool, pointer ownership, and the bookkeeping for double-clicks, cursor
/// updates, repaint and exit.
pub struct Interaction {
    pub selection: SelectionState,
    pub tool: Tool,
    pub pointer_owner: PointerOwner,
    pub last_click: Option<(u32, PointerPos)>,
    pub exit_requested: bool,
    pub dirty: bool,
    pub current_cursor: Option<CursorShape>,
    /// Windows under the pointer are offered as snap targets, front first.
    pub windows: Vec<WindowInfo>,
    pub outputs: Vec<OutputGeometry>,
}

/// No annotation change and nothing to capture.
pub open spec fn no_outcome() -> InputOutcome {
    InputOutcome { annotation: AnnotationCommand::Nothing, clear_annotations: false, confirm: None }
}

impl Interaction {
    pub open spec fn wf(self) -> bool {
        self.selection.wf()
    }

    pub fn new(windows: Vec<WindowInfo>, outputs: Vec<OutputGeometry>) -> (s: Self)
        ensures
            s.wf(),
            s.selection.selection == Selection::Empty,
            s.selection.drag is None,
            s.tool == Tool::Move,
            s.pointer_owner == PointerOwner::Idle,
            s.last_click is None,
            !s.exit_requested,
            !s.dirty,
            s.current_cursor is None,
            s.windows@ == windows@,
            s.outputs@ == outputs@,
    {
        Interaction {
            selection: SelectionState::new(),
            tool: Tool::Move,
            pointer_owner: PointerOwner::Idle,
            last_click: None,
            exit_requested: false,
            dirty: false,
            current_cursor: None,
            windows,
            outputs,
        }
    }

    /// Confirm the selection (Enter key or double-click): the rect to capture,
    /// after which the overlay exits.
    pub fn confirm_and_exit(&mut self) -> (r: Option<Rect>)
        ensures
            r == (match old(self).selection.selection {
                Selection::Confirmed { rect } => Some(rect),
                _ => None,
            }),
            *final(self) == (Interaction { exit_requested: old(self).exit_requested || r is Some, ..*old(self) }),
    {
        match self.selection.on_enter() {
            ConfirmAction::Confirmed { rect } => {
                self.exit_requested = true;
                Some(rect)
            },
            ConfirmAction::NoSelection => None,
        }
    }

    /// State and outcome of a pointer press (`force_new`: Alt or Shift held).
    ///
    /// Before a selection is confirmed, presses only drive the selection.
    /// On a confirmed selection a right click first leaves an annotation
    /// being drawn or dragged alone, then deselects a selected annotation,
    /// then switches a drawing tool back to Move, and only then reaches the
    /// selection. A quick second left click inside the selection with the
    /// Move tool confirms it; other left clicks are remembered. A drawing
    /// tool pressed inside the selection draws; any other press drives the
    /// selection, and the annotations are cleared when it ends up empty.
    pub open spec fn spec_press(
        self,
        pos: PointerPos,
        button: u32,
        time: u32,
        force_new: bool,
        ann: AnnotationStatus,
    ) -> (Self, InputOutcome) {
        let sel = self.selection.selection;
        if !(sel is Confirmed) {
            let (s2, exit) = self.selection.spec_press(pos, button);
            (Interaction { selection: s2, exit_requested: self.exit_requested || exit, ..self }, no_outcome())
        } else if button == BTN_RIGHT && (ann.drawing || ann.edit_drag) {
            (self, no_outcome())
        } else if button == BTN_RIGHT && ann.has_selection {
            (
                Interaction { dirty: true, ..self },
                InputOutcome { annotation: AnnotationCommand::DeselectAll, clear_annotations: false, confirm: None },
            )
        } else if button == BTN_RIGHT && self.tool != Tool::Move {
            (Interaction { tool: Tool::Move, dirty: true, ..self }, no_outcome())
        } else {
            let rect = sel->Confirmed_rect;
            let ins = inside(rect, pos);
            let double = match self.last_click {
                Some((t0, p0)) => spec_is_double_click(t0, p0, time, pos),
                None => false,
            };
            if button == BTN_LEFT && self.tool == Tool::Move && ins && double {
                (
                    Interaction { last_click: None, exit_requested: true, ..self },
                    InputOutcome { annotation: AnnotationCommand::Nothing, clear_annotations: false, confirm: Some(rect) },
                )
            } else {
                let lc = if button == BTN_LEFT { Some((time, pos)) } else { self.last_click };
                if spec_is_drawing(self.tool) && ins {
                    (
                        Interaction { last_click: lc, ..self },
                        InputOutcome {
                            annotation: AnnotationCommand::Press {
                                pos,
                                button,
                                tool: self.tool,
                                force_new,
                                selection_rect: Some(rect),
                            },
                            clear_annotations: false,
                            confirm: None,
                        },
                    )
                } else {
                    let (s2, exit) = self.selection.spec_press(pos, button);
                    (
                        Interaction {
                            last_click: lc,
                            selection: s2,
                            exit_requested: self.exit_requested || exit,
                            ..self
                        },
                        InputOutcome {
                            annotation: AnnotationCommand::Nothing,
                            clear_annotations: s2.selection is Empty,
                            confirm: None,
                        },
                    )
                }
            }
        }
    }

    /// Tool-aware pointer press handler. `force_new` is true while Alt or
    /// Shift is held.
    pub fn handle_pointer_press(
        &mut self,
        pos: PointerPos,
        button: u32,
        time: u32,
        force_new: bool,
        ann: AnnotationStatus,
    ) -> (out: InputOutcome)
        requires
            old(self).wf(),
            old(self).selection.press_ok(pos, button),
        ensures
            final(self).wf(),
            (*final(self), out) == old(self).spec_press(pos, button, time, force_new, ann),
    {
        if !self.selection.selection.is_confirmed() {
            if self.selection.on_pointer_press(pos, button) {
                self.exit_requested = true;
            }
            return InputOutcome { annotation: AnnotationCommand::Nothing, clear_annotations: false, confirm: None };
        }
        if button == BTN_RIGHT {
            if ann.drawing || ann.edit_drag {
                return InputOutcome {
                    annotation: AnnotationCommand::Nothing,
                    clear_annotations: false,
                    confirm: None,
                };
            }
            if ann.has_selection {
                self.dirty = true;
                return InputOutcome {
                    annotation: AnnotationCommand::DeselectAll,
                    clear_annotations: false,
                    confirm: None,
                };
            }
            if self.tool != Tool::Move {
                self.tool = Tool::Move;
                self.dirty = true;
                return InputOutcome {
                    annotation: AnnotationCommand::Nothing,
                    clear_annotations: false,
                    confirm: None,
                };
            }
        }
        let sel_rect = match self.selection.selection {
            Selection::Confirmed { rect } => rect,
            _ => Rect { x: 0, y: 0, w: 0, h: 0 },
        };
        let p = pos.to_point();
        let inside_sel = sel_rect.contains(p);
        if button == BTN_LEFT && self.tool == Tool::Move && inside_sel {
            if let Some((prev_time, prev_pos)) = self.last_click {
                if is_double_click(prev_time, prev_pos, time, pos) {
                    self.last_click = None;
                    let confirm = self.confirm_and_exit();
                    return InputOutcome { annotation: AnnotationCommand::Nothing, clear_annotations: false, confirm };
                }
            }
        }
        if button == BTN_LEFT {
            self.last_click = Some((time, pos));
        }
        let mut annotation = AnnotationCommand::Nothing;
        if self.tool.is_drawing() && inside_sel {
            annotation = AnnotationCommand::Press {
                pos,
                button,
                tool: self.tool,
                force_new,
                selection_rect: Some(sel_rect),
            };
        } else {
            if self.selection.on_pointer_press(pos, button) {
                self.exit_requested = true;
            }
        }
        let clear_annotations = match self.selection.selection {
            Selection::Empty => true,
            _ => false,
        };
        proof {
            crate::selection::lemma_ops_keep_wf(old(self).selection, pos, button, None);
        }
        InputOutcome { annotation, clear_annotations, confirm: None }
    }

    /// Tool-aware pointer motion handler: the selection always tracks the
    /// pointer (with the window under it as snap target); a drawing tool on
    /// a confirmed selection also moves the annotation layer.
    pub fn handle_pointer_motion(&mut self, pos: PointerPos) -> (cmd: AnnotationCommand)
        requires
            old(self).wf(),
            old(self).selection.motion_fits(pos),
        ensures
            final(self).wf(),
            final(self).selection == old(self).selection.spec_motion(
                pos,
                crate::snap::first_frame_containing(old(self).windows@, pos.spec_point()),
            ),
            *final(self) == (Interaction { selection: final(self).selection, ..*old(self) }),
            cmd == (if final(self).selection.selection is Confirmed && spec_is_drawing(old(self).tool) {
                AnnotationCommand::Motion { pos }
            } else {
                AnnotationCommand::Nothing
            }),
    {
        let p = pos.to_point();
        let snap_rect = find_snap_window(&self.windows, p);
        proof {
            crate::selection::lemma_ops_keep_wf(self.selection, pos, 0, snap_rect);
        }
        self.selection.on_pointer_motion(pos, snap_rect);
        if self.selection.selection.is_confirmed() && self.tool.is_drawing() {
            AnnotationCommand::Motion { pos }
        } else {
            AnnotationCommand::Nothing
        }
    }

    /// Tool-aware pointer release handler: the selection always sees the
    /// release; the annotation layer sees it when the selection was already
    /// confirmed before it.
    pub fn handle_pointer_release(&mut self, pos: PointerPos, button: u32) -> (cmd: AnnotationCommand)
        requires
            old(self).wf(),
            old(self).selection.release_ok(button),
        ensures
            final(self).wf(),
            final(self).selection == old(self).selection.spec_release(button),
            cmd == (if old(self).selection.selection is Confirmed && spec_is_drawing(old(self).tool) {
                AnnotationCommand::Release { pos, button }
            } else {
                AnnotationCommand::Nothing
            }),
            *final(self) == (Interaction { selection: old(self).selection.spec_release(button), ..*old(self) }),
    {
        let was_confirmed = self.selection.selection.is_confirmed();
        proof {
            crate::selection::lemma_ops_keep_wf(self.selection, pos, button, None);
        }
        self.selection.on_pointer_release(pos, button);
        if was_confirmed && self.tool.is_drawing() {
            AnnotationCommand::Release { pos, button }
        } else {
            AnnotationCommand::Nothing
        }
    }

    /// State and outcome of a key press: Escape first deselects an
    /// annotation, then clears the selection (and the annotations), and
    /// only then exits (clearing a snap preview as it does); Return
    /// confirms; Delete removes the selected annotation.
    pub open spec fn spec_key(self, key: OverlayKey, ann: AnnotationStatus) -> (Self, InputOutcome) {
        match key {
            OverlayKey::Escape => if ann.has_selection {
                (
                    Interaction { dirty: true, ..self },
                    InputOutcome { annotation: AnnotationCommand::DeselectAll, clear_annotations: false, confirm: None },
                )
            } else if self.selection.selection is Pending || self.selection.selection is Empty {
                (Interaction { selection: self.selection.spec_escape().0, exit_requested: true, ..self }, no_outcome())
            } else {
                (
                    Interaction { selection: self.selection.spec_cancelled(), dirty: true, ..self },
                    InputOutcome { annotation: AnnotationCommand::Clear, clear_annotations: false, confirm: None },
                )
            },
            OverlayKey::Return => match self.selection.selection {
                Selection::Confirmed { rect } => (
                    Interaction { exit_requested: true, ..self },
                    InputOutcome { annotation: AnnotationCommand::Nothing, clear_annotations: false, confirm: Some(rect) },
                ),
                _ => (self, no_outcome()),
            },
            OverlayKey::Delete => (
                Interaction { dirty: true, ..self },
                InputOutcome { annotation: AnnotationCommand::Delete, clear_annotations: false, confirm: None },
            ),
            OverlayKey::Other => (self, no_outcome()),
        }
    }

    /// Key handling; see [`Interaction::spec_key`].
    pub fn handle_key(&mut self, key: OverlayKey, ann: AnnotationStatus) -> (out: InputOutcome)
        requires
            old(self).wf(),
        ensures
            final(self).wf(),
            (*final(self), out) == old(self).spec_key(key, ann),
    {
        match key {
            OverlayKey::Escape => {
                if ann.has_selection {
                    self.dirty = true;
                    InputOutcome { annotation: AnnotationCommand::DeselectAll, clear_annotations: false, confirm: None }
                } else if self.selection.on_escape() {
                    self.exit_requested = true;
                    InputOutcome { annotation: AnnotationCommand::Nothing, clear_annotations: false, confirm: None }
                } else {
                    self.dirty = true;
                    InputOutcome { annotation: AnnotationCommand::Clear, clear_annotations: false, confirm: None }
                }
            },
            OverlayKey::Return => {
                let confirm = self.confirm_and_exit();
                InputOutcome { annotation: AnnotationCommand::Nothing, clear_annotations: false, confirm }
            },
            OverlayKey::Delete => {
                self.dirty = true;
                InputOutcome { annotation: AnnotationCommand::Delete, clear_annotations: false, confirm: None }
            },
            OverlayKey::Other => InputOutcome {
                annotation: AnnotationCommand::Nothing,
                clear_annotations: false,
                confirm: None,
            },
        }
    }

    /// The cursor for the pointer at `pos`: a drawing tool on a confirmed
    /// selection uses the annotation layer's choice when it makes one, and
    /// otherwise the selection state machine decides.
    pub open spec fn spec_cursor(self, pos: PointerPos, ann_cursor: Option<CursorShape>) -> CursorShape {
        if spec_is_drawing(self.tool) && self.selection.selection is Confirmed {
            match ann_cursor {
                Some(c) => c,
                None => self.selection.spec_cursor(pos),
            }
        } else {
            self.selection.spec_cursor(pos)
        }
    }

    /// Update the cursor shape; returns the new shape when it changed.
    pub fn update_cursor(&mut self, pos: PointerPos, ann_cursor: Option<CursorShape>) -> (r: Option<CursorShape>)
        ensures
            *final(self) == (Interaction { current_cursor: Some(old(self).spec_cursor(pos, ann_cursor)), ..*old(self) }),
            r == (if old(self).current_cursor == Some(old(self).spec_cursor(pos, ann_cursor)) {
                None
            } else {
                Some(old(self).spec_cursor(pos, ann_cursor))
            }),
            final(self).selection == old(self).selection,
            final(self).tool == old(self).tool,
    {
        let shape = if self.tool.is_drawing() && self.selection.selection.is_confirmed() {
            match ann_cursor {
                Some(c) => c,
                None => self.selection.cursor_for_position(pos),
            }
        } else {
            self.selection.cursor_for_position(pos)
        };
        if self.current_cursor == Some(shape) {
            return None;
        }
        self.current_cursor = Some(shape);
        Some(shape)
    }

    /// Output `i` is the first holding the centre of `sel`.
    pub open spec fn is_toolbar_output(self, sel: Rect, i: int) -> bool {
        &&& 0 <= i < self.outputs@.len()
        &&& centre_on(sel, self.outputs@[i])
        &&& forall|j: int| 0 <= j < i ==> !centre_on(sel, #[trigger] self.outputs@[j])
    }

    /// The toolbar rect for a confirmed selection fits `i32` on the output showing it.
    pub open spec fn toolbar_ok(self) -> bool {
        self.selection.selection is Confirmed ==> {
            let sel = self.selection.selection->Confirmed_rect;
            forall|i: int| #[trigger] self.is_toolbar_output(sel, i) ==> toolbar_rect_ok(
                sel,
                self.outputs@[i].output_pos,
                (self.outputs@[i].width, self.outputs@[i].height),
            )
        }
    }

    /// The toolbar for `sel` shown on output `o`, in global coordinates.
    pub open spec fn toolbar_on(sel: Rect, o: OutputGeometry) -> Rect {
        let p = crate::ui::toolbar::local_toolbar_pos(sel, o.output_pos, (o.width, o.height));
        Rect::from_ints(
            p.0 + o.output_pos.0,
            p.1 + o.output_pos.1,
            crate::ui::toolbar::TOOLBAR_WIDTH as int,
            crate::ui::toolbar::TOOLBAR_HEIGHT as int,
        )
    }

    /// Whether the toolbar rect of the current selection can be computed
    /// (what [`Interaction::compute_toolbar_rect`] and [`Interaction::route_press`] need).
    pub fn toolbar_fits(&self) -> (b: bool)
        ensures
            b == self.toolbar_ok(),
    {
        let sel = match self.selection.selection {
            Selection::Confirmed { rect } => rect,
            _ => return true,
        };
        match find_toolbar_output_idx(sel, &self.outputs) {
            Some(i) => {
                let o = &self.outputs[i];
                let b = crate::ui::toolbar::toolbar_rect_fits(sel, o.output_pos, (o.width, o.height));
                proof {
                    assert(self.is_toolbar_output(sel, i as int));
                    assert forall|k: int| #[trigger] self.is_toolbar_output(sel, k) implies k == i by {
                        if k < i {
                            assert(!centre_on(sel, self.outputs@[k]));
                        } else if k > i {
                            assert(!centre_on(sel, self.outputs@[i as int]));
                        }
                    }
                }
                b
            },
            None => {
                proof {
                    assert forall|k: int| !#[trigger] self.is_toolbar_output(sel, k) by {
                        if 0 <= k < self.outputs@.len() {
                            assert(!centre_on(sel, self.outputs@[k]));
                        }
                    }
                }
                true
            },
        }
    }

    /// Compute the toolbar bounding rect in global logical coordinates.
    /// Returns None when the selection is not Confirmed — the toolbar
    /// must not appear during snap preview or drag-creation — or when no
    /// output holds the selection's centre.
    pub fn compute_toolbar_rect(&self) -> (r: Option<Rect>)
        requires
            self.toolbar_ok(),
        ensures
            !(self.selection.selection is Confirmed) ==> r is None,
            self.selection.selection is Confirmed ==> {
                let sel = self.selection.selection->Confirmed_rect;
                &&& r is None <==> forall|i: int|
                    0 <= i < self.outputs@.len() ==> !centre_on(sel, #[trigger] self.outputs@[i])
                &&& r matches Some(t) ==> exists|i: int|
                    self.is_toolbar_output(sel, i) && t == Self::toolbar_on(sel, #[trigger] self.outputs@[i])
            },
    {
        let sel = match self.selection.selection {
            Selection::Confirmed { rect } => rect,
            _ => return None,
        };
        match find_toolbar_output_idx(sel, &self.outputs) {
            Some(i) => {
                let o = &self.outputs[i];
                assert(self.is_toolbar_output(sel, i as int));
                toolbar_rect(Some(sel), o.output_pos, (o.width, o.height))
            },
            None => None,
        }
    }

    /// Decide who owns a press: the toolbar when the pointer is over it,
    /// the overlay otherwise.
    pub fn route_press(&mut self, pos: PointerPos) -> (owner: PointerOwner)
        requires
            old(self).toolbar_ok(),
        ensures
            *final(self) == (Interaction { pointer_owner: owner, ..*old(self) }),
            owner is Toolbar || owner is Overlay,
            owner is Toolbar <==> (old(self).selection.selection is Confirmed && exists|i: int|
                old(self).is_toolbar_output(old(self).selection.selection->Confirmed_rect, i)
                    && Self::toolbar_on(
                    old(self).selection.selection->Confirmed_rect,
                    #[trigger] old(self).outputs@[i],
                ).spec_contains(pos.spec_point())),
    {
        let p = pos.to_point();
        let over_toolbar = match self.compute_toolbar_rect() {
            Some(r) => r.contains(p),
            None => false,
        };
        proof {
            if let Selection::Confirmed { rect: sel } = self.selection.selection {
                assert forall|i: int, j: int|
                    self.is_toolbar_output(sel, i) && self.is_toolbar_output(sel, j) implies i == j by {
                    if i < j {
                        assert(!centre_on(sel, self.outputs@[i]));
                    } else if j < i {
                        assert(!centre_on(sel, self.outputs@[j]));
                    }
                }
            }
        }
        let owner = if over_toolbar { PointerOwner::Toolbar } else { PointerOwner::Overlay };
        self.pointer_owner = owner;
        owner
    }

    /// A release ends the drag: returns the owner it goes to.
    pub fn route_release(&mut self) -> (owner: PointerOwner)
        ensures
            owner == old(self).pointer_owner,
            *final(self) == (Interaction { pointer_owner: PointerOwner::Idle, ..*old(self) }),
            final(self).selection == old(self).selection,
            final(self).tool == old(self).tool,
    {
        let owner = self.pointer_owner;
        self.pointer_owner = PointerOwner::Idle;
        owner
    }

    /// Motion reaches the overlay unless the toolbar owns the drag.
    pub fn motion_to_overlay(&self) -> (b: bool)
        ensures
            b == (self.pointer_owner != PointerOwner::Toolbar),
    {
        match self.pointer_owner {
            PointerOwner::Toolbar => false,
            _ => true,
        }
    }

    /// A tool change from the toolbar: a different tool drops the annotation
    /// selection (returns true when it must be dropped).
    pub fn change_tool(&mut self, new_tool: Tool) -> (deselect: bool)
        ensures
            deselect == (new_tool != old(self).tool),
            *final(self) == (Interaction { tool: new_tool, ..*old(self) }),
    {
        if new_tool != self.tool {
            self.tool = new_tool;
            true
        } else {
            false
        }
    }
}


/// A press or key never withdraws an exit request, a capture is always
/// followed by exit, and the only tool change a press makes is a right
/// click switching back to Move.
pub proof fn lemma_input_monotone(
    s: Interaction,
    pos: PointerPos,
    button: u32,
    time: u32,
    force_new: bool,
    ann: AnnotationStatus,
    key: OverlayKey,
)
    ensures
        ({
            let (t, out) = s.spec_press(pos, button, time, force_new, ann);
            &&& s.exit_requested ==> t.exit_requested
            &&& out.confirm is Some ==> t.exit_requested
            &&& (t.tool == s.tool || (button == BTN_RIGHT && t.tool == Tool::Move))
            &&& t.windows == s.windows && t.outputs == s.outputs
        }),
        ({
            let (t, out) = s.spec_key(key, ann);
            &&& s.exit_requested ==> t.exit_requested
            &&& out.confirm is Some ==> t.exit_requested
            &&& t.tool == s.tool
        }),
{
}

/// Annotations are dropped exactly when a press loses the confirmed
/// selection, and a press that hands work to the annotation layer leaves
/// the selection as it was.
pub proof fn lemma_annotations_follow_selection(
    s: Interaction,
    pos: PointerPos,
    button: u32,
    time: u32,
    force_new: bool,
    ann: AnnotationStatus,
)
    requires
        s.selection.selection is Confirmed,
    ensures
        ({
            let (t, out) = s.spec_press(pos, button, time, force_new, ann);
            &&& out.clear_annotations <==> (t.selection.selection is Empty)
            &&& out.annotation is Press ==> t.selection == s.selection
        }),
{
}

/// Two Escapes with no annotation selected undo a confirmed selection and
/// then exit; the first never exits.
pub proof fn lemma_escape_twice_exits(s: Interaction, ann: AnnotationStatus)
    requires
        s.selection.selection is Confirmed,
        !ann.has_selection,
        !s.exit_requested,
    ensures
        ({
            let (t1, o1) = s.spec_key(OverlayKey::Escape, ann);
            let (t2, o2) = t1.spec_key(OverlayKey::Escape, ann);
            &&& !t1.exit_requested
            &&& t1.selection.selection is Empty
            &&& o1.annotation == AnnotationCommand::Clear
            &&& t2.exit_requested
        }),
{
}

/// A double-click inside a confirmed selection with the Move tool captures
/// exactly that selection.
pub proof fn lemma_double_click_captures(
    s: Interaction,
    p0: PointerPos,
    t0: u32,
    p1: PointerPos,
    t1: u32,
    ann: AnnotationStatus,
)
    requires
        s.selection.selection is Confirmed,
        s.tool == Tool::Move,
        s.last_click == Some((t0, p0)),
        inside(s.selection.selection->Confirmed_rect, p1),
        spec_is_double_click(t0, p0, t1, p1),
    ensures
        ({
            let (t, out) = s.spec_press(p1, BTN_LEFT, t1, false, ann);
            &&& out.confirm == Some(s.selection.selection->Confirmed_rect)
            &&& t.exit_requested
            &&& t.selection == s.selection
        }),
{
}

} // verus!
