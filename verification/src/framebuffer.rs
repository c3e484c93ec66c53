//! The panel's frame buffer geometry.
use vstd::prelude::*;

verus! {

/// Width of the panel in pixels, as the frame buffer stores it.
pub const FB_WIDTH: usize = 800;
/// Height of the panel in pixels, as the frame buffer stores it.
pub const FB_HEIGHT: usize = 480;

/// How the picture is turned on the panel.
#[derive(Clone, Copy, Debug, PartialEq, Eq, Structural)]
pub enum Rotation {
    Rotate0,
    Rotate90,
    Rotate180,
    Rotate270,
}

} // verus!
