//! The Breakout shader handle.

use vstd::prelude::*;

verus! {

/// A linked shader program, known by its OpenGL name.
#[derive(Clone, Copy, PartialEq, Eq, Structural, Debug)]
pub struct Shader {
    pub id: u32,
}

impl Shader {
    /// A handle that names no program yet.
    pub fn new() -> (r: Self)
        ensures
            r.id == 0,
    {
        Shader { id: 0 }
    }
}

} // verus!
