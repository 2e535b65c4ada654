use vstd::prelude::*;

use crate::geom::{Point, Rect};
use crate::kwin::windows::WindowInfo;

verus! {

/// The frame of the first window (front to back) containing `p`.
pub open spec fn first_frame_containing(ws: Seq<WindowInfo>, p: Point) -> Option<Rect>
    decreases ws.len(),
{
    if ws.len() == 0 {
        None
    } else if ws[0].frame().spec_contains(p) {
        Some(ws[0].frame())
    } else {
        first_frame_containing(ws.drop_first(), p)
    }
}

/// Find the topmost window under the given pointer position.
///
/// Windows are expected to be in stacking order (front to back as returned
/// by KWin's `workspace.stackingOrder`). Returns the frame geometry of the
/// first window whose bounds contain the pointer, or `None` if no window
/// matches.
pub fn find_snap_window(windows: &[WindowInfo], pointer: Point) -> (r: Option<Rect>)
    ensures
        r == first_frame_containing(windows@, pointer),
        r is None <==> forall|i: int| 0 <= i < windows@.len() ==> !windows@[i].frame().spec_contains(pointer),
        r matches Some(rect) ==> exists|i: int|
            0 <= i < windows@.len() && windows@[i].frame() == rect && rect.spec_contains(pointer)
                && forall|j: int| 0 <= j < i ==> !windows@[j].frame().spec_contains(pointer),
{
    let mut k: usize = 0;
    assert(windows@.subrange(0, windows@.len() as int) =~= windows@);
    while k < windows.len()
        invariant
            k <= windows@.len(),
            forall|j: int| 0 <= j < k ==> !windows@[j].frame().spec_contains(pointer),
            first_frame_containing(windows@, pointer) == first_frame_containing(
                windows@.subrange(k as int, windows@.len() as int),
                pointer,
            ),
        decreases windows@.len() - k,
    {
        let rect = windows[k].frame_rect();
        let ghost rest = windows@.subrange(k as int, windows@.len() as int);
        assert(rest[0] == windows@[k as int]);
        if rect.contains(pointer) {
            return Some(rect);
        }
        assert(rest.drop_first() =~= windows@.subrange(k + 1, windows@.len() as int));
        k = k + 1;
    }
    proof {
        assert(windows@.subrange(k as int, windows@.len() as int).len() == 0);
    }
    None
}

} // verus!
