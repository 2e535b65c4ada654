use vstd::prelude::*;

use crate::geom::Rect;

verus! {

/// A window as listed by KWin, with its frame geometry rounded to whole
/// logical pixels.
#[derive(Debug, Clone)]
pub struct WindowInfo {
    pub caption: String,
    pub resource_class: String,
    pub x: i32,
    pub y: i32,
    pub width: i32,
    pub height: i32,
}

impl WindowInfo {
    /// The window's frame geometry as a rect.
    pub open spec fn frame(self) -> Rect {
        Rect { x: self.x, y: self.y, w: self.width, h: self.height }
    }

    pub fn frame_rect(&self) -> (r: Rect)
        ensures
            r == self.frame(),
    {
        Rect { x: self.x, y: self.y, w: self.width, h: self.height }
    }
}

} // verus!
