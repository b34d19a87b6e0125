//! The post-processing pass: its render targets and the effects it applies.

use vstd::prelude::*;
use crate::shader::Shader;
use crate::texture::Texture2D;

verus! {

/// Renders the game into an off-screen target and draws it back with optional
/// confuse, chaos and shake effects.
#[derive(Clone, Copy, PartialEq, Eq, Structural, Debug)]
pub struct PostProcessor {
    pub post_processing_shader: Shader,
    pub texture: Texture2D,
    pub width: u32,
    pub height: u32,
    pub confuse: bool,
    pub chaos: bool,
    pub shake: bool,
    /// Multisampled framebuffer the game is rendered into.
    pub msfbo: u32,
    /// Framebuffer the multisampled image is resolved into.
    pub fbo: u32,
    /// Multisampled colour renderbuffer.
    pub rbo: u32,
    /// Vertex array of the screen quad.
    pub vao: u32,
}

/// 1 for an enabled effect, 0 for a disabled one, as the shader's integer uniforms take it.
pub open spec fn flag_value(b: bool) -> i32 {
    if b { 1 } else { 0 }
}

impl PostProcessor {
    /// A post-processor over the given OpenGL objects, with every effect off.
    pub fn new(
        shader: Shader,
        texture: Texture2D,
        width: u32,
        height: u32,
        msfbo: u32,
        fbo: u32,
        rbo: u32,
        vao: u32,
    ) -> (r: Self)
        ensures
            r == (PostProcessor {
                post_processing_shader: shader,
                texture: texture,
                width: width,
                height: height,
                confuse: false,
                chaos: false,
                shake: false,
                msfbo: msfbo,
                fbo: fbo,
                rbo: rbo,
                vao: vao,
            }),
    {
        PostProcessor {
            post_processing_shader: shader,
            texture,
            width,
            height,
            confuse: false,
            chaos: false,
            shake: false,
            msfbo,
            fbo,
            rbo,
            vao,
        }
    }

    /// The values of the `confuse`, `chaos` and `shake` uniforms for the current effects.
    pub fn effect_uniforms(&self) -> (r: (i32, i32, i32))
        ensures
            r == (flag_value(self.confuse), flag_value(self.chaos), flag_value(self.shake)),
    {
        (
            if self.confuse { 1 } else { 0 },
            if self.chaos { 1 } else { 0 },
            if self.shake { 1 } else { 0 },
        )
    }
}

} // verus!
