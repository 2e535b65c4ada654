use takeashot::compose::OutputGeometry;
use takeashot::geom::{PointerPos, Rect};
use takeashot::kwin::windows::WindowInfo;
use takeashot::overlay::{
    find_toolbar_output_idx, is_double_click, local_selection_rect, AnnotationCommand, AnnotationStatus,
    InputOutcome, Interaction, OverlayKey, PointerOwner,
};
use takeashot::selection::{CursorShape, Selection, BTN_LEFT, BTN_RIGHT};
use takeashot::ui::toolbar::Tool;

fn pos(x: f64, y: f64) -> PointerPos {
    PointerPos { x: (x * 256.0).round() as i32, y: (y * 256.0).round() as i32 }
}

fn idle() -> AnnotationStatus {
    AnnotationStatus { drawing: false, edit_drag: false, has_selection: false }
}

fn outputs() -> Vec<OutputGeometry> {
    vec![
        OutputGeometry { output_pos: (0, 0), width: 1920, height: 1080, scale_factor: 1 },
        OutputGeometry { output_pos: (1920, 0), width: 1920, height: 1080, scale_factor: 1 },
    ]
}

fn confirmed() -> Interaction {
    let mut s = Interaction::new(Vec::new(), outputs());
    s.selection.selection = Selection::Confirmed { rect: Rect::new(100, 100, 200, 200) };
    s
}

#[test]
fn double_click_detection() {
    assert!(is_double_click(1000, pos(10.0, 10.0), 1299, pos(12.0, 12.5)));
    assert!(!is_double_click(1000, pos(10.0, 10.0), 1300, pos(10.0, 10.0)));
    assert!(!is_double_click(1000, pos(10.0, 10.0), 1100, pos(13.0, 12.0)));
    // The millisecond clock wraps around.
    assert!(is_double_click(u32::MAX - 10, pos(0.0, 0.0), 20, pos(0.0, 0.0)));
}

#[test]
fn double_click_inside_confirms_and_exits() {
    let mut s = confirmed();
    let first = s.handle_pointer_press(pos(150.0, 150.0), BTN_LEFT, 1000, false, idle());
    assert_eq!(first.confirm, None);
    s.handle_pointer_release(pos(150.0, 150.0), BTN_LEFT);
    let second = s.handle_pointer_press(pos(151.0, 150.0), BTN_LEFT, 1200, false, idle());
    assert_eq!(second.confirm, Some(Rect::new(100, 100, 200, 200)));
    assert!(s.exit_requested);
    assert!(s.last_click.is_none());
}

#[test]
fn right_click_rules_in_confirmed_mode() {
    // An annotation being drawn swallows the right click.
    let mut s = confirmed();
    s.tool = Tool::Pen;
    let out = s.handle_pointer_press(pos(150.0, 150.0), BTN_RIGHT, 0, false, AnnotationStatus { drawing: true, edit_drag: false, has_selection: false });
    assert_eq!(out.annotation, AnnotationCommand::Nothing);
    assert_eq!(s.tool, Tool::Pen);
    // A selected annotation is deselected.
    let out = s.handle_pointer_press(pos(150.0, 150.0), BTN_RIGHT, 0, false, AnnotationStatus { drawing: false, edit_drag: false, has_selection: true });
    assert_eq!(out.annotation, AnnotationCommand::DeselectAll);
    // Then a drawing tool falls back to Move.
    s.handle_pointer_press(pos(150.0, 150.0), BTN_RIGHT, 0, false, idle());
    assert_eq!(s.tool, Tool::Move);
    assert!(matches!(s.selection.selection, Selection::Confirmed { .. }));
    // With Move, the selection itself is cancelled and annotations cleared.
    let out = s.handle_pointer_press(pos(150.0, 150.0), BTN_RIGHT, 0, false, idle());
    assert_eq!(s.selection.selection, Selection::Empty);
    assert!(out.clear_annotations);
    assert!(!s.exit_requested);
}

#[test]
fn drawing_tool_inside_selection_goes_to_annotations() {
    let mut s = confirmed();
    s.tool = Tool::Rect;
    let out = s.handle_pointer_press(pos(150.0, 150.0), BTN_LEFT, 0, true, idle());
    assert_eq!(
        out.annotation,
        AnnotationCommand::Press { pos: pos(150.0, 150.0), button: BTN_LEFT, tool: Tool::Rect, force_new: true, selection_rect: Some(Rect::new(100, 100, 200, 200)) }
    );
    assert_eq!(s.handle_pointer_motion(pos(160.0, 160.0)), AnnotationCommand::Motion { pos: pos(160.0, 160.0) });
    assert_eq!(s.handle_pointer_release(pos(160.0, 160.0), BTN_LEFT), AnnotationCommand::Release { pos: pos(160.0, 160.0), button: BTN_LEFT });
    // Outside the selection the press extends the selection instead.
    let out = s.handle_pointer_press(pos(400.0, 150.0), BTN_LEFT, 5000, false, idle());
    assert_eq!(out.annotation, AnnotationCommand::Nothing);
    assert_eq!(s.selection.selection, Selection::Confirmed { rect: Rect::new(100, 100, 300, 200) });
}

#[test]
fn presses_before_confirmation_drive_the_selection() {
    let mut s = Interaction::new(Vec::new(), outputs());
    let out = s.handle_pointer_press(pos(10.0, 10.0), BTN_RIGHT, 0, false, idle());
    assert_eq!(out, InputOutcome { annotation: AnnotationCommand::Nothing, clear_annotations: false, confirm: None });
    assert!(s.exit_requested);
}

#[test]
fn motion_previews_windows() {
    let w = WindowInfo { caption: String::new(), resource_class: String::new(), x: 10, y: 20, width: 800, height: 600 };
    let mut s = Interaction::new(vec![w], outputs());
    s.handle_pointer_motion(pos(0.0, 0.0));
    s.handle_pointer_motion(pos(100.0, 100.0));
    assert_eq!(s.selection.selection, Selection::Pending { rect: Rect::new(10, 20, 800, 600) });
}

#[test]
fn escape_priorities() {
    let mut s = confirmed();
    let out = s.handle_key(OverlayKey::Escape, AnnotationStatus { drawing: false, edit_drag: false, has_selection: true });
    assert_eq!(out.annotation, AnnotationCommand::DeselectAll);
    assert!(matches!(s.selection.selection, Selection::Confirmed { .. }));
    let out = s.handle_key(OverlayKey::Escape, idle());
    assert_eq!(out.annotation, AnnotationCommand::Clear);
    assert_eq!(s.selection.selection, Selection::Empty);
    assert!(!s.exit_requested);
    s.handle_key(OverlayKey::Escape, idle());
    assert!(s.exit_requested);
}

#[test]
fn return_and_delete_keys() {
    let mut s = confirmed();
    assert_eq!(s.handle_key(OverlayKey::Delete, idle()).annotation, AnnotationCommand::Delete);
    assert!(!s.exit_requested);
    let out = s.handle_key(OverlayKey::Return, idle());
    assert_eq!(out.confirm, Some(Rect::new(100, 100, 200, 200)));
    assert!(s.exit_requested);
    let mut e = Interaction::new(Vec::new(), outputs());
    assert_eq!(e.handle_key(OverlayKey::Return, idle()).confirm, None);
    assert!(!e.exit_requested);
}

#[test]
fn toolbar_output_and_rect() {
    assert_eq!(find_toolbar_output_idx(Rect::new(1800, 100, 400, 100), &outputs()), Some(1));
    assert_eq!(find_toolbar_output_idx(Rect::new(100, 100, 400, 100), &outputs()), Some(0));
    assert_eq!(find_toolbar_output_idx(Rect::new(5000, 100, 10, 10), &outputs()), None);
    let s = confirmed();
    assert_eq!(s.compute_toolbar_rect(), Some(Rect::new(0, 304, 420, 36)));
    let mut p = Interaction::new(Vec::new(), outputs());
    p.selection.selection = Selection::Pending { rect: Rect::new(100, 100, 200, 200) };
    assert_eq!(p.compute_toolbar_rect(), None);
}

#[test]
fn pointer_ownership() {
    let mut s = confirmed();
    assert_eq!(s.route_press(pos(10.0, 310.0)), PointerOwner::Toolbar);
    assert!(!s.motion_to_overlay());
    assert_eq!(s.route_release(), PointerOwner::Toolbar);
    assert_eq!(s.pointer_owner, PointerOwner::Idle);
    assert_eq!(s.route_press(pos(150.0, 150.0)), PointerOwner::Overlay);
    assert!(s.motion_to_overlay());
}

#[test]
fn cursor_updates_only_on_change() {
    let mut s = confirmed();
    assert_eq!(s.update_cursor(pos(200.0, 200.0), None), Some(CursorShape::Move));
    assert_eq!(s.update_cursor(pos(210.0, 200.0), None), None);
    s.tool = Tool::Pen;
    assert_eq!(s.update_cursor(pos(210.0, 200.0), Some(CursorShape::Crosshair)), Some(CursorShape::Crosshair));
    // Without the annotation layer's opinion the selection decides.
    assert_eq!(s.update_cursor(pos(100.0, 100.0), None), Some(CursorShape::ResizeNWSE));
}

#[test]
fn tool_changes_deselect() {
    let mut s = confirmed();
    assert!(s.change_tool(Tool::Line));
    assert!(!s.change_tool(Tool::Line));
    assert_eq!(s.tool, Tool::Line);
}

#[test]
fn selection_is_clipped_per_output() {
    let o = OutputGeometry { output_pos: (1920, 0), width: 1920, height: 1080, scale_factor: 1 };
    assert_eq!(local_selection_rect(Some(Rect::new(1800, 100, 400, 100)), &o), Some(Rect::new(0, 100, 280, 100)));
    assert_eq!(local_selection_rect(Some(Rect::new(0, 0, 100, 100)), &o), None);
    assert_eq!(local_selection_rect(None, &o), None);
}

#[test]
fn toolbar_check_on_interaction() {
    let s = confirmed();
    assert!(s.toolbar_fits());
    let none = Interaction::new(Vec::new(), outputs());
    assert!(none.toolbar_fits());
    let mut far = Interaction::new(Vec::new(), vec![OutputGeometry { output_pos: (i32::MIN, 0), width: 100, height: 100, scale_factor: 1 }]);
    far.selection.selection = Selection::Confirmed { rect: Rect::new(i32::MAX - 20, 10, 10, 10) };
    // The centre lies on no output, so there is no toolbar to place.
    assert!(far.toolbar_fits());
    far.selection.selection = Selection::Confirmed { rect: Rect::new(i32::MIN + 10, 10, 10, 10) };
    assert!(far.toolbar_fits());
}

#[test]
fn escape_on_preview_clears_and_exits() {
    let mut s = Interaction::new(Vec::new(), outputs());
    s.selection.selection = Selection::Pending { rect: Rect::new(100, 100, 200, 200) };
    let out = s.handle_key(OverlayKey::Escape, idle());
    assert_eq!(out, InputOutcome { annotation: AnnotationCommand::Nothing, clear_annotations: false, confirm: None });
    assert!(s.exit_requested);
    assert_eq!(s.selection.selection, Selection::Empty);
}
