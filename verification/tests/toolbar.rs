use takeashot::ui::toolbar::toolbar_rect_fits;
use takeashot::geom::Rect;
use takeashot::ui::toolbar::{place_toolbar, toolbar_rect, Tool};

fn screen() -> Rect {
    Rect::new(0, 0, 1920, 1080)
}

fn toolbar_size() -> (i32, i32) {
    (300, 40)
}

#[test]
fn toolbar_below_right() {
    // Selection in the middle of the screen → toolbar below-right
    let sel = Rect::new(100, 100, 400, 300);
    let (x, y) = place_toolbar(&sel, &screen(), toolbar_size(), 4);
    // x = sel_right - tw = 500 - 300 = 200
    assert_eq!(x as f32, 200.0);
    // y = sel_bottom + margin = 400 + 4 = 404
    assert_eq!(y as f32, 404.0);
}

#[test]
fn toolbar_above_right_when_no_space_below() {
    // Selection near bottom of screen
    let sel = Rect::new(100, 1000, 400, 50);
    let (x, y) = place_toolbar(&sel, &screen(), toolbar_size(), 4);
    // x = sel_right - tw = 500 - 300 = 200
    assert_eq!(x as f32, 200.0);
    // y = sel_top - margin - th = 1000 - 4 - 40 = 956
    assert_eq!(y as f32, 956.0);
}

#[test]
fn toolbar_inside_when_no_space_above_or_below() {
    // Selection spans almost the full screen height
    let sel = Rect::new(100, 10, 400, 1060);
    let (x, y) = place_toolbar(&sel, &screen(), toolbar_size(), 4);
    // Inside: x = 500 - 300 = 200, y = 1070 - 40 = 1030
    assert_eq!(x as f32, 200.0);
    assert_eq!(y as f32, 1030.0);
}

#[test]
fn toolbar_x_clamped_to_screen() {
    // Selection very narrow at the left
    let sel = Rect::new(0, 100, 50, 300);
    let (x, _y) = place_toolbar(&sel, &screen(), toolbar_size(), 4);
    // x = sel_right - tw = 50 - 300 = -250, clamped to 0
    assert_eq!(x as f32, 0.0);
}

#[test]
fn toolbar_inside_x_clamped_to_sel_left() {
    // Very narrow selection, no space above or below
    let sel = Rect::new(0, 10, 50, 1060);
    let (x, _y) = place_toolbar(&sel, &screen(), toolbar_size(), 4);
    // Inside: x = (50 - 300).max(0) = 0
    assert_eq!(x as f32, 0.0);
}

#[test]
fn toolbar_rect_in_global_coordinates() {
    // Output at (1920, 0), 1920x1080; selection in its middle.
    let r = toolbar_rect(Some(Rect::new(2020, 100, 400, 300)), (1920, 0), (1920, 1080));
    // local selection (100,100,400,300): right 500 - 420 = 80, below at 404
    assert_eq!(r, Some(Rect::new(80 + 1920, 404, 420, 36)));
    assert_eq!(toolbar_rect(None, (0, 0), (1920, 1080)), None);
}

#[test]
fn toolbar_rect_falls_back_inside() {
    let r = toolbar_rect(Some(Rect::new(0, 0, 1920, 1080)), (0, 0), (1920, 1080));
    assert_eq!(r, Some(Rect::new(1500, 1044, 420, 36)));
}

#[test]
fn tool_kinds_and_labels() {
    assert!(!Tool::Move.is_drawing());
    assert!(!Tool::AnnotationEdit.is_drawing());
    for t in [Tool::Pen, Tool::Line, Tool::Rect, Tool::Ellipse, Tool::Mosaic] {
        assert!(t.is_drawing());
    }
    assert_eq!(Tool::Move.label(), "\u{2195} Move");
    assert_eq!(Tool::Mosaic.label(), "\u{25A3} Mosaic");
    assert_eq!(Tool::Ellipse.label(), "\u{2B2D} Ellipse");
    assert_eq!(Tool::all().len(), 7);
    assert_eq!(Tool::all()[0], Tool::Move);
    assert_eq!(Tool::default(), Tool::Move);
}

#[test]
fn toolbar_fit_check() {
    assert!(toolbar_rect_fits(Rect::new(100, 100, 400, 300), (0, 0), (1920, 1080)));
    assert!(toolbar_rect_fits(Rect::new(2000, 100, 400, 300), (1920, 0), (1920, 1080)));
    assert!(!toolbar_rect_fits(Rect::new(i32::MIN, 0, 10, 10), (10, 0), (1920, 1080)));
    assert!(!toolbar_rect_fits(Rect::new(0, i32::MAX, 10, 10), (0, -10), (1920, 1080)));
}
