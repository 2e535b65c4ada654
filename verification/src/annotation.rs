use vstd::prelude::*;

use crate::geom::{Point, Rect};
use crate::ui::toolbar::Tool;

verus! {

/// Unique identifier for an annotation.
#[derive(Debug, Clone, Copy, PartialEq, Eq, Structural)]
pub struct AnnotationId(pub usize);

/// Edit handle kind for rendering and hit-testing.
#[derive(Debug, Clone, Copy, PartialEq, Eq, Structural)]
pub enum EditHandle {
    /// Corner handle for scaling (0=TL, 1=TR, 2=BR, 3=BL).
    Corner(usize),
    /// Rotation handle above the top edge center.
    Rotation,
}

/// Result of an annotation pointer event.
#[derive(Debug, Clone, Copy, PartialEq, Eq, Structural)]
pub enum AnnotationAction {
    Ignored,
    Consumed,
    ExitRequested,
}

/// The kind of shape an annotation draws.
#[derive(Debug, Clone, Copy, PartialEq, Eq, Structural)]
pub enum ShapeKind {
    Pen,
    Line,
    Rect,
    Ellipse,
    Mosaic,
}

/// The drawing tool that creates (and edits) shapes of a kind.
pub open spec fn spec_matches_tool(kind: ShapeKind, tool: Tool) -> bool {
    match kind {
        ShapeKind::Pen => tool == Tool::Pen,
        ShapeKind::Line => tool == Tool::Line,
        ShapeKind::Rect => tool == Tool::Rect,
        ShapeKind::Ellipse => tool == Tool::Ellipse,
        ShapeKind::Mosaic => tool == Tool::Mosaic,
    }
}

/// True if the current drawing tool operates on this shape kind.
pub fn matches_tool(kind: ShapeKind, tool: Tool) -> (b: bool)
    ensures
        b == spec_matches_tool(kind, tool),
{
    match (kind, tool) {
        (ShapeKind::Pen, Tool::Pen) => true,
        (ShapeKind::Line, Tool::Line) => true,
        (ShapeKind::Rect, Tool::Rect) => true,
        (ShapeKind::Ellipse, Tool::Ellipse) => true,
        (ShapeKind::Mosaic, Tool::Mosaic) => true,
        _ => false,
    }
}

/// An annotation's kind and its axis-aligned bounds in global logical pixels.
#[derive(Debug, Clone, Copy, PartialEq, Eq, Structural)]
pub struct AnnotationBounds {
    pub kind: ShapeKind,
    pub bounds: Rect,
}

/// Annotation `i` is a hit for `p` (restricted to `tool`'s kind when given).
pub open spec fn is_hit(items: Seq<AnnotationBounds>, i: int, p: Point, tool: Option<Tool>) -> bool {
    &&& items[i].bounds.spec_contains(p)
    &&& (tool matches Some(t) ==> spec_matches_tool(items[i].kind, t))
}

/// The topmost (last drawn) annotation hit at `p`; with `Some(tool)`, only
/// annotations of that tool's shape kind count.
pub fn topmost_hit(items: &[AnnotationBounds], p: Point, tool: Option<Tool>) -> (r: Option<usize>)
    ensures
        r is None <==> forall|i: int| 0 <= i < items@.len() ==> !#[trigger] is_hit(items@, i, p, tool),
        r matches Some(i) ==> i < items@.len() && is_hit(items@, i as int, p, tool) && forall|j: int|
            i < j < items@.len() ==> !#[trigger] is_hit(items@, j, p, tool),
{
    let mut k: usize = items.len();
    while k > 0
        invariant
            k <= items@.len(),
            forall|j: int| k <= j < items@.len() ==> !#[trigger] is_hit(items@, j, p, tool),
        decreases k,
    {
        let idx = k - 1;
        let it = &items[idx];
        let kind_ok = match tool {
            Some(t) => matches_tool(it.kind, t),
            None => true,
        };
        if kind_ok && it.bounds.contains(p) {
            assert(is_hit(items@, idx as int, p, tool));
            return Some(idx);
        }
        k = idx;
    }
    None
}

/// A tool hits annotations of its own kind only, and any hit it finds is
/// also a hit for an unrestricted hit test (which may find a higher one).
pub proof fn lemma_matching_hit_is_hit(items: Seq<AnnotationBounds>, i: int, p: Point, t: Tool)
    requires
        is_hit(items, i, p, Some(t)),
    ensures
        is_hit(items, i, p, None),
        spec_matches_tool(items[i].kind, t),
{
}

/// The shape a drawing tool draws.
pub open spec fn spec_shape_for_tool(tool: Tool) -> Option<ShapeKind> {
    match tool {
        Tool::Pen => Some(ShapeKind::Pen),
        Tool::Line => Some(ShapeKind::Line),
        Tool::Rect => Some(ShapeKind::Rect),
        Tool::Ellipse => Some(ShapeKind::Ellipse),
        Tool::Mosaic => Some(ShapeKind::Mosaic),
        _ => None,
    }
}

pub fn shape_for_tool(tool: Tool) -> (k: Option<ShapeKind>)
    ensures
        k == spec_shape_for_tool(tool),
        k matches Some(kind) ==> spec_matches_tool(kind, tool),
{
    match tool {
        Tool::Pen => Some(ShapeKind::Pen),
        Tool::Line => Some(ShapeKind::Line),
        Tool::Rect => Some(ShapeKind::Rect),
        Tool::Ellipse => Some(ShapeKind::Ellipse),
        Tool::Mosaic => Some(ShapeKind::Mosaic),
        _ => None,
    }
}

/// Left mouse button (from linux/input-event-codes.h).
pub const ANNOTATION_BTN_LEFT: u32 = 0x110;

/// What a press in annotation mode starts.
#[derive(Debug, Clone, Copy, PartialEq, Eq, Structural)]
pub enum PressDecision {
    /// The press is not for the annotation layer.
    Ignore,
    /// Scale or rotate the selected annotation by the grabbed handle.
    EditSelected(EditHandle),
    /// Select annotation `index` and start moving it.
    SelectAndMove(usize),
    /// Deselect and start drawing a new shape of this kind.
    Draw(ShapeKind),
}

/// The press decision: only left presses with a drawing tool count. Unless
/// a new shape is forced, a grabbed handle of the selected annotation (of
/// the tool's kind) wins, then the topmost annotation of the tool's kind
/// under the pointer; otherwise a new shape is drawn.
pub open spec fn spec_decide_press(
    button: u32,
    tool: Tool,
    force_new: bool,
    selected_handle: Option<EditHandle>,
    matching_hit: Option<usize>,
) -> PressDecision {
    if button != ANNOTATION_BTN_LEFT || spec_shape_for_tool(tool) is None {
        PressDecision::Ignore
    } else if !force_new && selected_handle is Some {
        PressDecision::EditSelected(selected_handle->0)
    } else if !force_new && matching_hit is Some {
        PressDecision::SelectAndMove(matching_hit->0)
    } else {
        PressDecision::Draw(spec_shape_for_tool(tool)->0)
    }
}

/// Decide what an annotation-mode press does. `selected_handle` is the edit
/// handle of the selected annotation under the pointer, when that
/// annotation is of the tool's kind; `matching_hit` is the topmost
/// annotation of the tool's kind under the pointer.
pub fn decide_press(
    button: u32,
    tool: Tool,
    force_new: bool,
    selected_handle: Option<EditHandle>,
    matching_hit: Option<usize>,
) -> (d: PressDecision)
    ensures
        d == spec_decide_press(button, tool, force_new, selected_handle, matching_hit),
{
    if button != ANNOTATION_BTN_LEFT {
        return PressDecision::Ignore;
    }
    let kind = match shape_for_tool(tool) {
        Some(k) => k,
        None => return PressDecision::Ignore,
    };
    if !force_new {
        if let Some(h) = selected_handle {
            return PressDecision::EditSelected(h);
        }
        if let Some(i) = matching_hit {
            return PressDecision::SelectAndMove(i);
        }
    }
    PressDecision::Draw(kind)
}

/// The cursor the annotation layer asks for with a drawing tool: Move
/// while editing, over a handle of the selected annotation or over an
/// annotation of the tool's kind; a crosshair inside the selection; no
/// opinion otherwise (and never for other tools).
pub open spec fn spec_annotation_cursor(
    tool: Tool,
    edit_drag: bool,
    over_selected_handle: bool,
    over_matching: bool,
    inside_selection: bool,
) -> Option<crate::selection::CursorShape> {
    if spec_shape_for_tool(tool) is None {
        None
    } else if edit_drag || over_selected_handle || over_matching {
        Some(crate::selection::CursorShape::Move)
    } else if inside_selection {
        Some(crate::selection::CursorShape::Crosshair)
    } else {
        None
    }
}

pub fn annotation_cursor(
    tool: Tool,
    edit_drag: bool,
    over_selected_handle: bool,
    over_matching: bool,
    inside_selection: bool,
) -> (c: Option<crate::selection::CursorShape>)
    ensures
        c == spec_annotation_cursor(tool, edit_drag, over_selected_handle, over_matching, inside_selection),
{
    if !tool.is_drawing() {
        return None;
    }
    if edit_drag || over_selected_handle || over_matching {
        return Some(crate::selection::CursorShape::Move);
    }
    if inside_selection {
        Some(crate::selection::CursorShape::Crosshair)
    } else {
        None
    }
}

/// A list of annotations (oldest first, drawn in order) with at most one selected.
pub struct AnnotationStore<T> {
    pub items: Vec<T>,
    pub selected: Option<usize>,
}

impl<T> AnnotationStore<T> {
    pub fn new() -> (s: Self)
        ensures
            s.items@.len() == 0,
            s.selected is None,
    {
        AnnotationStore { items: Vec::new(), selected: None }
    }

    /// Remove all annotations and the selection.
    pub fn clear(&mut self)
        ensures
            final(self).items@.len() == 0,
            final(self).selected is None,
    {
        self.items.clear();
        self.selected = None;
    }

    /// Deselect any selected annotation.
    pub fn deselect_all(&mut self)
        ensures
            final(self).items@ == old(self).items@,
            final(self).selected is None,
    {
        self.selected = None;
    }

    /// Delete the currently selected annotation (when the selection names
    /// one); the selection is cleared either way when it named one.
    pub fn on_delete(&mut self)
        ensures
            (old(self).selected matches Some(i) && i < old(self).items@.len()) ==> final(self).items@
                == old(self).items@.remove(old(self).selected->0 as int) && final(self).selected is None,
            !(old(self).selected matches Some(i) && i < old(self).items@.len()) ==> final(self).items@
                == old(self).items@ && final(self).selected == old(self).selected,
    {
        if let Some(idx) = self.selected {
            if idx < self.items.len() {
                self.items.remove(idx);
                self.selected = None;
            }
        }
    }

    /// Add a finished annotation on top.
    pub fn push(&mut self, item: T)
        ensures
            final(self).items@ == old(self).items@.push(item),
            final(self).selected == old(self).selected,
    {
        self.items.push(item);
    }

    /// Select annotation `index`.
    pub fn select(&mut self, index: usize)
        ensures
            final(self).items@ == old(self).items@,
            final(self).selected == Some(index),
    {
        self.selected = Some(index);
    }

    /// Replace annotation `index`, returning the previous one.
    pub fn replace(&mut self, index: usize, item: T) -> (prev: T)
        requires
            index < old(self).items@.len(),
        ensures
            prev == old(self).items@[index as int],
            final(self).items@ == old(self).items@.update(index as int, item),
            final(self).selected == old(self).selected,
    {
        let prev = self.items.remove(index);
        self.items.insert(index, item);
        proof {
            assert(self.items@ =~= old(self).items@.update(index as int, item));
        }
        prev
    }

    pub fn annotations(&self) -> (s: &[T])
        ensures
            s@ == self.items@,
    {
        self.items.as_slice()
    }

    /// The selected annotation's index, if it names one.
    pub fn selected_index(&self) -> (r: Option<usize>)
        ensures
            r == self.selected,
    {
        self.selected
    }

    pub fn has_selection(&self) -> (b: bool)
        ensures
            b == (self.selected is Some),
    {
        self.selected.is_some()
    }
}

/// Deleting with a valid selection removes exactly that annotation and
/// keeps the others in order; deleting again without selecting changes nothing.
pub proof fn lemma_delete_removes_selected<T>(items: Seq<T>, i: int)
    requires
        0 <= i < items.len(),
    ensures
        items.remove(i).len() == items.len() - 1,
        forall|j: int| 0 <= j < i ==> items.remove(i)[j] == items[j],
        forall|j: int| i <= j < items.len() - 1 ==> items.remove(i)[j] == items[j + 1],
{
}

} // verus!
