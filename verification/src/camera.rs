//! Camera movement commands, independent of any window system.

use vstd::prelude::*;

verus! {

/// The directions a keyboard can move the camera in.
#[derive(Clone, Copy, PartialEq, Eq, Structural, Debug)]
pub enum Movement {
    FORWARD,
    BACKWARD,
    LEFT,
    RIGHT,
}

} // verus!
