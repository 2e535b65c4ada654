use takeashot::geom::{Point, PointerPos, Rect};
use takeashot::selection::{ConfirmAction, CursorShape, Handle, Selection, SelectionState, BTN_LEFT, BTN_RIGHT};

/// A pointer position given in logical pixels.
fn pos(x: f64, y: f64) -> PointerPos {
    PointerPos { x: (x * 256.0).round() as i32, y: (y * 256.0).round() as i32 }
}

#[test]
fn drag_creates_selection() {
    let mut s = SelectionState::new();
    s.on_pointer_press(pos(100.0, 200.0), BTN_LEFT);
    s.on_pointer_motion(pos(300.0, 400.0), None);
    s.on_pointer_release(pos(300.0, 400.0), BTN_LEFT);

    assert_eq!(s.selection, Selection::Confirmed { rect: Rect::new(100, 200, 200, 200) });
}

#[test]
fn drag_right_to_left_normalizes() {
    let mut s = SelectionState::new();
    s.on_pointer_press(pos(300.0, 400.0), BTN_LEFT);
    s.on_pointer_motion(pos(100.0, 200.0), None);
    s.on_pointer_release(pos(100.0, 200.0), BTN_LEFT);

    assert_eq!(s.selection, Selection::Confirmed { rect: Rect::new(100, 200, 200, 200) });
}

#[test]
fn too_small_drag_is_cancelled() {
    let mut s = SelectionState::new();
    s.on_pointer_press(pos(100.0, 200.0), BTN_LEFT);
    s.on_pointer_motion(pos(101.0, 201.0), None);
    s.on_pointer_release(pos(101.0, 201.0), BTN_LEFT);

    assert_eq!(s.selection, Selection::Empty);
}

#[test]
fn move_selection() {
    let mut s = SelectionState::new();
    s.selection = Selection::Confirmed { rect: Rect::new(100, 100, 200, 200) };

    s.on_pointer_press(pos(150.0, 150.0), BTN_LEFT); // inside rect
    s.on_pointer_motion(pos(160.0, 170.0), None);
    s.on_pointer_release(pos(160.0, 170.0), BTN_LEFT);

    assert_eq!(s.selection, Selection::Confirmed { rect: Rect::new(110, 120, 200, 200) });
}

#[test]
fn move_clamped_by_bounds() {
    let mut s = SelectionState::new();
    s.bounds = Some(Rect::new(0, 0, 300, 300));
    // 200x200 rect at (100,100), trying to move left past x=0
    s.selection = Selection::Confirmed { rect: Rect::new(100, 100, 200, 200) };

    s.on_pointer_press(pos(150.0, 150.0), BTN_LEFT);
    // Move 200px left — would put x at -100, but clamped to 0
    s.on_pointer_motion(pos(-50.0, 150.0), None);
    match s.selection {
        Selection::Confirmed { rect } => {
            assert_eq!(rect.x, 0); // clamped
            assert_eq!(rect.w, 200); // size preserved
        }
        _ => panic!("expected Confirmed"),
    }
}

#[test]
fn resize_with_bottom_right_handle() {
    let mut s = SelectionState::new();
    s.selection = Selection::Confirmed { rect: Rect::new(100, 100, 200, 200) };

    // Click on bottom-right handle (300, 300)
    s.on_pointer_press(pos(300.0, 300.0), BTN_LEFT);
    s.on_pointer_motion(pos(350.0, 350.0), None);
    s.on_pointer_release(pos(350.0, 350.0), BTN_LEFT);

    assert_eq!(s.selection, Selection::Confirmed { rect: Rect::new(100, 100, 250, 250) });
}

#[test]
fn extend_vertically_from_below() {
    let mut s = SelectionState::new();
    s.selection = Selection::Confirmed { rect: Rect::new(100, 100, 200, 200) };

    // Click below the rect (200, 400) — immediately expands bottom to 400
    s.on_pointer_press(pos(200.0, 400.0), BTN_LEFT);
    // After press: rect bottom is now 400, so h=300 (400-100)
    match s.selection {
        Selection::Confirmed { rect } => {
            assert_eq!(rect.h, 300);
            assert_eq!(rect.y, 100);
        }
        _ => panic!("expected Confirmed after press"),
    }

    // Drag further down to 450 — extends another 50 from drag start
    s.on_pointer_motion(pos(200.0, 450.0), None);
    s.on_pointer_release(pos(200.0, 450.0), BTN_LEFT);
    match s.selection {
        Selection::Confirmed { rect } => {
            assert_eq!(rect.h, 350); // 300 + 50
            assert_eq!(rect.y, 100);
        }
        _ => panic!("expected Confirmed"),
    }
}

#[test]
fn extend_horizontally_from_right() {
    let mut s = SelectionState::new();
    s.selection = Selection::Confirmed { rect: Rect::new(100, 100, 200, 200) };

    // Click to the right (400, 200) — immediately expands right to 400
    s.on_pointer_press(pos(400.0, 200.0), BTN_LEFT);
    match s.selection {
        Selection::Confirmed { rect } => {
            assert_eq!(rect.w, 300); // 400 - 100
            assert_eq!(rect.x, 100);
        }
        _ => panic!("expected Confirmed after press"),
    }

    s.on_pointer_motion(pos(450.0, 200.0), None);
    s.on_pointer_release(pos(450.0, 200.0), BTN_LEFT);
    match s.selection {
        Selection::Confirmed { rect } => {
            assert_eq!(rect.w, 350); // 300 + 50
            assert_eq!(rect.x, 100);
        }
        _ => panic!("expected Confirmed"),
    }
}

#[test]
fn extend_diagonally() {
    let mut s = SelectionState::new();
    s.selection = Selection::Confirmed { rect: Rect::new(100, 100, 200, 200) };

    // Click bottom-right (400, 400) — immediately expands to include that point
    s.on_pointer_press(pos(400.0, 400.0), BTN_LEFT);
    match s.selection {
        Selection::Confirmed { rect } => {
            assert_eq!(rect.w, 300); // 400 - 100
            assert_eq!(rect.h, 300); // 400 - 100
        }
        _ => panic!("expected Confirmed after press"),
    }

    s.on_pointer_motion(pos(450.0, 450.0), None);
    s.on_pointer_release(pos(450.0, 450.0), BTN_LEFT);
    match s.selection {
        Selection::Confirmed { rect } => {
            assert_eq!(rect.w, 350); // 300 + 50
            assert_eq!(rect.h, 350); // 300 + 50
        }
        _ => panic!("expected Confirmed"),
    }
}

#[test]
fn right_click_cancels() {
    let mut s = SelectionState::new();
    s.selection = Selection::Confirmed { rect: Rect::new(100, 100, 200, 200) };

    let should_exit = s.on_pointer_press(pos(150.0, 150.0), BTN_RIGHT);
    assert!(!should_exit);
    assert_eq!(s.selection, Selection::Empty);
}

#[test]
fn right_click_no_selection_exits() {
    let mut s = SelectionState::new();
    let should_exit = s.on_pointer_press(pos(100.0, 100.0), BTN_RIGHT);
    assert!(should_exit);
}

#[test]
fn escape_cancels_selection() {
    let mut s = SelectionState::new();
    s.selection = Selection::Confirmed { rect: Rect::new(100, 100, 200, 200) };

    let should_exit = s.on_escape();
    assert!(!should_exit);
    assert_eq!(s.selection, Selection::Empty);

    // Second escape signals exit
    let should_exit = s.on_escape();
    assert!(should_exit);
}

#[test]
fn escape_clears_pending_preview() {
    let mut s = SelectionState::new();
    s.selection = Selection::Pending { rect: Rect::new(10, 20, 800, 600) };
    assert!(s.on_escape());
    assert_eq!(s.selection, Selection::Empty);
    assert!(s.on_escape());
    assert_eq!(s.selection, Selection::Empty);
}

#[test]
fn cursor_crosshair_when_no_selection() {
    let s = SelectionState::new();
    assert_eq!(s.cursor_for_position(pos(100.0, 100.0)), CursorShape::Crosshair);
}

#[test]
fn cursor_move_inside_confirmed() {
    let mut s = SelectionState::new();
    s.selection = Selection::Confirmed { rect: Rect::new(100, 100, 200, 200) };
    assert_eq!(s.cursor_for_position(pos(200.0, 200.0)), CursorShape::Move);
}

#[test]
fn cursor_resize_on_handle() {
    let mut s = SelectionState::new();
    s.selection = Selection::Confirmed { rect: Rect::new(100, 100, 200, 200) };
    // Top-left handle at (100, 100)
    assert_eq!(s.cursor_for_position(pos(100.0, 100.0)), CursorShape::ResizeNWSE);
    // Bottom-right handle at (300, 300)
    assert_eq!(s.cursor_for_position(pos(300.0, 300.0)), CursorShape::ResizeNWSE);
    // Top-right handle at (300, 100)
    assert_eq!(s.cursor_for_position(pos(300.0, 100.0)), CursorShape::ResizeNESW);
    // Bottom handle at (200, 300)
    assert_eq!(s.cursor_for_position(pos(200.0, 300.0)), CursorShape::ResizeNS);
    // Right handle at (300, 200)
    assert_eq!(s.cursor_for_position(pos(300.0, 200.0)), CursorShape::ResizeEW);
}

#[test]
fn cursor_crosshair_outside_confirmed() {
    let mut s = SelectionState::new();
    s.selection = Selection::Confirmed { rect: Rect::new(100, 100, 200, 200) };
    assert_eq!(s.cursor_for_position(pos(50.0, 50.0)), CursorShape::Crosshair);
}

// --- Snap preview (Pending) tests ---

#[test]
fn snap_preview_on_motion() {
    let mut s = SelectionState::new();
    s.last_pointer = Some(pos(0.0, 0.0)); // Initialize so motion doesn't early-return
    let snap = Rect::new(10, 20, 800, 600);
    s.on_pointer_motion(pos(100.0, 100.0), Some(snap));
    assert_eq!(s.selection, Selection::Pending { rect: snap });
}

#[test]
fn snap_preview_clears_when_no_window() {
    let mut s = SelectionState::new();
    // Start with a snap preview
    s.selection = Selection::Pending { rect: Rect::new(10, 20, 800, 600) };
    s.last_pointer = Some(pos(100.0, 100.0));
    // Move to a position with no window
    s.on_pointer_motion(pos(900.0, 900.0), None);
    assert_eq!(s.selection, Selection::Empty);
}

#[test]
fn snap_preview_updates_on_different_window() {
    let mut s = SelectionState::new();
    s.last_pointer = Some(pos(0.0, 0.0)); // Initialize
    let snap1 = Rect::new(10, 20, 800, 600);
    s.on_pointer_motion(pos(100.0, 100.0), Some(snap1));
    assert_eq!(s.selection, Selection::Pending { rect: snap1 });

    let snap2 = Rect::new(900, 20, 800, 600);
    s.on_pointer_motion(pos(1000.0, 100.0), Some(snap2));
    assert_eq!(s.selection, Selection::Pending { rect: snap2 });
}

#[test]
fn click_on_pending_confirms() {
    let mut s = SelectionState::new();
    let snap = Rect::new(10, 20, 800, 600);
    s.selection = Selection::Pending { rect: snap };
    s.last_pointer = Some(pos(100.0, 100.0));

    // Press enters PendingSnap state
    let should_exit = s.on_pointer_press(pos(100.0, 100.0), BTN_LEFT);
    assert!(!should_exit);
    // Still Pending (not yet confirmed)
    assert!(matches!(s.selection, Selection::Pending { .. }));

    // Release confirms the snap
    s.on_pointer_release(pos(100.0, 100.0), BTN_LEFT);
    assert_eq!(s.selection, Selection::Confirmed { rect: snap });
}

#[test]
fn drag_from_pending_overrides() {
    let mut s = SelectionState::new();
    let snap = Rect::new(10, 20, 800, 600);
    s.selection = Selection::Pending { rect: snap };
    s.last_pointer = Some(pos(100.0, 100.0));

    // Press on Pending → enters PendingSnap (not yet confirmed)
    s.on_pointer_press(pos(100.0, 100.0), BTN_LEFT);
    // Should still be Pending (waiting for release or drag)
    assert!(matches!(s.selection, Selection::Pending { .. }));

    // Motion past threshold → overrides to Creating
    s.on_pointer_motion(pos(150.0, 150.0), None);
    assert!(matches!(s.selection, Selection::Creating { .. }));

    // Release → Creating resolves to Confirmed with drag rect
    s.on_pointer_release(pos(150.0, 150.0), BTN_LEFT);
    assert!(matches!(s.selection, Selection::Confirmed { .. }));
}

#[test]
fn escape_pending_exits() {
    let mut s = SelectionState::new();
    s.selection = Selection::Pending { rect: Rect::new(10, 20, 800, 600) };

    let should_exit = s.on_escape();
    assert!(should_exit);
}

#[test]
fn cancel_creating() {
    let mut s = SelectionState::new();
    s.selection = Selection::Creating { rect: Rect::new(10, 20, 800, 600) };

    let should_exit = s.on_escape();
    assert!(!should_exit);
    assert_eq!(s.selection, Selection::Empty);
}

#[test]
fn right_click_pending_exits() {
    let mut s = SelectionState::new();
    s.selection = Selection::Pending { rect: Rect::new(10, 20, 800, 600) };

    let should_exit = s.on_pointer_press(pos(100.0, 100.0), BTN_RIGHT);
    assert!(should_exit);
}

#[test]
fn shows_handles_only_for_confirmed() {
    assert!(!Selection::Empty.shows_handles());
    assert!(!Selection::Pending { rect: Rect::new(0, 0, 100, 100) }.shows_handles());
    assert!(!Selection::Creating { rect: Rect::new(0, 0, 100, 100) }.shows_handles());
    assert!(Selection::Confirmed { rect: Rect::new(0, 0, 100, 100) }.shows_handles());
}

#[test]
fn creating_drag_to_confirmed() {
    let mut s = SelectionState::new();
    s.on_pointer_press(pos(100.0, 200.0), BTN_LEFT);
    // During drag, selection should be Creating
    assert!(matches!(s.selection, Selection::Creating { .. }));
    s.on_pointer_motion(pos(300.0, 400.0), None);
    s.on_pointer_release(pos(300.0, 400.0), BTN_LEFT);
    // After release, Creating → Confirmed
    assert_eq!(s.selection, Selection::Confirmed { rect: Rect::new(100, 200, 200, 200) });
}

// --- Additional cases ---

#[test]
fn fractional_drag_truncates_toward_zero() {
    // Start at 100.75 and move by 50.5 px: the width truncates to 50.
    let mut s = SelectionState::new();
    s.on_pointer_press(pos(100.75, 200.25), BTN_LEFT);
    s.on_pointer_motion(pos(151.25, 230.5), None);
    s.on_pointer_release(pos(151.25, 230.5), BTN_LEFT);
    assert_eq!(s.selection, Selection::Confirmed { rect: Rect::new(100, 200, 50, 30) });
}

#[test]
fn small_wobble_on_pending_still_confirms_snap() {
    let mut s = SelectionState::new();
    let snap = Rect::new(10, 20, 800, 600);
    s.selection = Selection::Pending { rect: snap };
    s.last_pointer = Some(pos(100.0, 100.0));
    s.on_pointer_press(pos(100.0, 100.0), BTN_LEFT);
    // Exactly two pixels is not past the threshold.
    s.on_pointer_motion(pos(102.0, 98.0), None);
    assert!(matches!(s.selection, Selection::Pending { .. }));
    s.on_pointer_release(pos(102.0, 98.0), BTN_LEFT);
    assert_eq!(s.selection, Selection::Confirmed { rect: snap });
}

#[test]
fn resize_through_opposite_edge_flips() {
    let mut s = SelectionState::new();
    s.selection = Selection::Confirmed { rect: Rect::new(100, 100, 200, 200) };
    // Grab the left handle and drag it 300px to the right, past the right edge.
    s.on_pointer_press(pos(100.0, 200.0), BTN_LEFT);
    s.on_pointer_motion(pos(400.0, 200.0), None);
    s.on_pointer_release(pos(400.0, 200.0), BTN_LEFT);
    assert_eq!(s.selection, Selection::Confirmed { rect: Rect::new(300, 100, 100, 200) });
}

#[test]
fn resize_to_zero_width_clears() {
    let mut s = SelectionState::new();
    s.selection = Selection::Confirmed { rect: Rect::new(100, 100, 200, 200) };
    s.on_pointer_press(pos(300.0, 200.0), BTN_LEFT); // right handle
    s.on_pointer_motion(pos(100.0, 200.0), None);
    s.on_pointer_release(pos(100.0, 200.0), BTN_LEFT);
    assert_eq!(s.selection, Selection::Empty);
}

#[test]
fn handle_at_tolerance_and_order() {
    let r = Rect::new(100, 100, 200, 200);
    assert_eq!(SelectionState::handle_at(&r, Point::new(106, 94), 6), Some(Handle::TopLeft));
    assert_eq!(SelectionState::handle_at(&r, Point::new(107, 100), 6), None);
    assert_eq!(SelectionState::handle_at(&r, Point::new(200, 100), 6), Some(Handle::Top));
    assert_eq!(SelectionState::handle_at(&r, Point::new(100, 200), 6), Some(Handle::Left));
    assert_eq!(SelectionState::handle_at(&r, Point::new(200, 200), 6), None);
    // A negative tolerance reads as a huge unsigned one: the first handle always matches.
    assert_eq!(SelectionState::handle_at(&r, Point::new(5000, 5000), -1), Some(Handle::TopLeft));
}

#[test]
fn enter_confirms_only_confirmed() {
    let mut s = SelectionState::new();
    assert_eq!(s.on_enter(), ConfirmAction::NoSelection);
    s.selection = Selection::Pending { rect: Rect::new(0, 0, 10, 10) };
    assert_eq!(s.on_enter(), ConfirmAction::NoSelection);
    s.selection = Selection::Confirmed { rect: Rect::new(0, 0, 10, 10) };
    assert_eq!(s.on_enter(), ConfirmAction::Confirmed { rect: Rect::new(0, 0, 10, 10) });
}

#[test]
fn cursor_during_drag_follows_operation() {
    let mut s = SelectionState::new();
    s.selection = Selection::Confirmed { rect: Rect::new(100, 100, 200, 200) };
    s.on_pointer_press(pos(150.0, 150.0), BTN_LEFT);
    assert_eq!(s.cursor_for_position(pos(1000.0, 1000.0)), CursorShape::Move);
    s.on_pointer_release(pos(150.0, 150.0), BTN_LEFT);
    s.on_pointer_press(pos(200.0, 300.0), BTN_LEFT); // bottom handle
    assert_eq!(s.cursor_for_position(pos(0.0, 0.0)), CursorShape::ResizeNS);
}

#[test]
fn other_buttons_are_ignored() {
    let mut s = SelectionState::new();
    s.selection = Selection::Confirmed { rect: Rect::new(100, 100, 200, 200) };
    assert!(!s.on_pointer_press(pos(150.0, 150.0), 0x112));
    assert!(s.drag.is_none());
    assert_eq!(s.selection, Selection::Confirmed { rect: Rect::new(100, 100, 200, 200) });
}

#[test]
fn press_check_flags_extension_beyond_i32() {
    let mut s = SelectionState::new();
    assert!(s.can_press(pos(5.0, 5.0), BTN_LEFT));
    // Far to the left of a very wide selection: the width would have to exceed i32.
    s.selection = Selection::Confirmed { rect: Rect::new(i32::MAX / 256 - 2, 0, i32::MAX - 10, 10) };
    assert!(!s.can_press(PointerPos { x: -(i32::MAX / 2), y: 5 * 256 }, BTN_LEFT));
    assert!(s.can_press(PointerPos { x: -(i32::MAX / 2), y: 5 * 256 }, BTN_RIGHT));
    assert!(s.can_press(PointerPos { x: (i32::MAX / 256 - 1) * 256, y: 5 * 256 }, BTN_LEFT));
}

#[test]
fn motion_and_release_checks() {
    let mut s = SelectionState::new();
    s.on_pointer_press(pos(100.0, 100.0), BTN_LEFT);
    assert!(s.can_move_to(pos(200.0, 200.0)));
    s.on_pointer_motion(pos(200.0, 200.0), None);
    assert!(s.can_release(BTN_LEFT));
    assert!(s.can_release(BTN_RIGHT));
    s.selection = Selection::Creating { rect: Rect::new(i32::MIN, 0, -5, 10) };
    assert!(!s.can_release(BTN_LEFT));
    assert!(s.can_release(BTN_RIGHT));

    let mut m = SelectionState::new();
    m.selection = Selection::Confirmed { rect: Rect::new(i32::MAX - 100, 0, 50, 50) };
    m.on_pointer_press(pos(0.0, 0.0), BTN_LEFT);
    m.on_pointer_motion(pos(0.0, 0.0), None);
    // The press grew the rect to x = 0; the drag extends it by its left edge.
    assert!(m.can_move_to(pos(10.0, 10.0)));
    assert!(!m.can_move_to(pos(-100.0, 0.0)));
}

#[test]
fn moving_depends_only_on_latest_position() {
    let start = || {
        let mut s = SelectionState::new();
        s.selection = Selection::Confirmed { rect: Rect::new(100, 100, 200, 200) };
        s.on_pointer_press(pos(150.0, 150.0), BTN_LEFT);
        s
    };
    let mut a = start();
    let mut b = start();
    a.on_pointer_motion(pos(10.0, 400.0), None);
    a.on_pointer_motion(pos(170.0, 140.0), None);
    b.on_pointer_motion(pos(170.0, 140.0), None);
    assert_eq!(a.selection, b.selection);
    assert_eq!(a.selection, Selection::Confirmed { rect: Rect::new(120, 90, 200, 200) });
}

#[test]
fn cursor_stays_fixed_through_drag_motions() {
    let mut s = SelectionState::new();
    s.selection = Selection::Confirmed { rect: Rect::new(100, 100, 200, 200) };
    s.on_pointer_press(pos(150.0, 150.0), BTN_LEFT);
    s.on_pointer_motion(pos(400.0, 20.0), None);
    s.on_pointer_motion(pos(5.0, 600.0), None);
    assert_eq!(s.cursor_for_position(pos(0.0, 0.0)), CursorShape::Move);
    s.on_pointer_release(pos(5.0, 600.0), BTN_LEFT);

    let mut r = SelectionState::new();
    r.selection = Selection::Confirmed { rect: Rect::new(100, 100, 200, 200) };
    r.on_pointer_press(pos(300.0, 200.0), BTN_LEFT); // right handle
    r.on_pointer_motion(pos(350.0, 260.0), None);
    r.on_pointer_motion(pos(120.0, 110.0), None);
    assert_eq!(r.cursor_for_position(pos(500.0, 500.0)), CursorShape::ResizeEW);

    let mut c = SelectionState::new();
    c.on_pointer_press(pos(10.0, 10.0), BTN_LEFT);
    c.on_pointer_motion(pos(50.0, 60.0), None);
    assert_eq!(c.cursor_for_position(pos(30.0, 30.0)), CursorShape::Crosshair);
}
