//! Verified core of a KDE Wayland screenshot tool: selection geometry, the
//! selection state machine, window snapping, toolbar placement, capture
//! cropping and image composition.

pub mod geom;
pub mod selection;
pub mod kwin;
pub mod snap;
pub mod ui;
pub mod capture;
pub mod compose;
pub mod overlay;
pub mod blur;
pub mod annotation;
