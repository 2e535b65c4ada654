pub mod screenshot;
pub mod windows;
