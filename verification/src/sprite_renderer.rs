//! The sprite renderer's state: its shader and the quad it draws.

use vstd::prelude::*;
use crate::shader::Shader;

verus! {

/// Draws textured quads with one shader.
pub struct SpriteRenderer {
    shader: Shader,
    quad_vao: u32,
}

impl SpriteRenderer {
    /// A renderer drawing with `shader` the unit quad held in the vertex array `quad_vao`.
    pub fn new(shader: Shader, quad_vao: u32) -> (r: Self)
        ensures
            r.shader() == shader,
            r.quad_vao() == quad_vao,
    {
        SpriteRenderer { shader, quad_vao }
    }

    /// The shader the sprites are drawn with.
    pub closed spec fn shader(&self) -> Shader {
        self.shader
    }

    /// The vertex array of the unit quad.
    pub closed spec fn quad_vao(&self) -> u32 {
        self.quad_vao
    }

    /// The shader the sprites are drawn with.
    pub fn get_shader(&self) -> (r: Shader)
        ensures
            r == self.shader(),
    {
        self.shader
    }

    /// The vertex array of the unit quad.
    pub fn get_quad_vao(&self) -> (r: u32)
        ensures
            r == self.quad_vao(),
    {
        self.quad_vao
    }
}

} // verus!
