//! The shader handle of the sample programs.

use vstd::prelude::*;

verus! {

/// A linked shader program of the sample programs, known by its OpenGL name.
pub struct Shader {
    id: u32,
}

impl Shader {
    /// The handle of the linked program named `id`.
    pub fn from_program(id: u32) -> (r: Self)
        ensures
            r.spec_id() == id,
    {
        Shader { id }
    }

    /// The OpenGL name of the program.
    pub closed spec fn spec_id(&self) -> u32 {
        self.id
    }

    /// The OpenGL name of the program.
    pub fn id(&self) -> (r: u32)
        ensures
            r == self.spec_id(),
    {
        self.id
    }
}

} // verus!
