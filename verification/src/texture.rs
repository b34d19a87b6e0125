//! The Breakout texture description: size, formats, wrapping and filtering.

use vstd::prelude::*;

verus! {

/// `GL_RGB`.
pub open spec fn spec_gl_rgb() -> u32 {
    0x1907
}

/// `GL_RGBA`.
pub open spec fn spec_gl_rgba() -> u32 {
    0x1908
}

/// `GL_REPEAT`.
pub open spec fn spec_gl_repeat() -> u32 {
    0x2901
}

/// `GL_LINEAR`.
pub open spec fn spec_gl_linear() -> u32 {
    0x2601
}

/// Reads `gl::RGB`; the contract claims the value that the OpenGL registry gives it.
#[verifier::external_body]
fn gl_rgb() -> (r: u32)
    ensures
        r == spec_gl_rgb(),
{
    gl::RGB
}

/// Reads `gl::RGBA`; the contract claims the value that the OpenGL registry gives it.
#[verifier::external_body]
fn gl_rgba() -> (r: u32)
    ensures
        r == spec_gl_rgba(),
{
    gl::RGBA
}

/// Reads `gl::REPEAT`; the contract claims the value that the OpenGL registry gives it.
#[verifier::external_body]
fn gl_repeat() -> (r: u32)
    ensures
        r == spec_gl_repeat(),
{
    gl::REPEAT
}

/// Reads `gl::LINEAR`; the contract claims the value that the OpenGL registry gives it.
#[verifier::external_body]
fn gl_linear() -> (r: u32)
    ensures
        r == spec_gl_linear(),
{
    gl::LINEAR
}

/// The description of texture object `id` for an image of `width` by `height` pixels: RGBA
/// when the image has an alpha channel, else RGB, repeating and linearly filtered.
pub open spec fn image_texture(id: u32, alpha: bool, width: u32, height: u32) -> Texture2D {
    Texture2D {
        id: id,
        width: width,
        height: height,
        internal_format: if alpha { spec_gl_rgba() } else { spec_gl_rgb() },
        image_format: if alpha { spec_gl_rgba() } else { spec_gl_rgb() },
        wrap_s: spec_gl_repeat(),
        wrap_t: spec_gl_repeat(),
        filter_min: spec_gl_linear(),
        filter_max: spec_gl_linear(),
    }
}

/// A 2D texture object and the parameters it is uploaded with.
#[derive(Clone, Copy, PartialEq, Eq, Structural, Debug)]
pub struct Texture2D {
    /// OpenGL name of the texture object.
    pub id: u32,
    /// Width of the loaded image in pixels.
    pub width: u32,
    /// Height of the loaded image in pixels.
    pub height: u32,
    /// Format of the texture object.
    pub internal_format: u32,
    /// Format of the loaded image.
    pub image_format: u32,
    /// Wrapping mode on the S axis.
    pub wrap_s: u32,
    /// Wrapping mode on the T axis.
    pub wrap_t: u32,
    /// Filter when texture pixels are smaller than screen pixels.
    pub filter_min: u32,
    /// Filter when texture pixels are larger than screen pixels.
    pub filter_max: u32,
}

impl Texture2D {
    /// The default description of the texture object named `id`: empty, RGB, repeating,
    /// linearly filtered.
    pub fn new(id: u32) -> (r: Self)
        ensures
            r == (Texture2D {
                id: id,
                width: 0,
                height: 0,
                internal_format: spec_gl_rgb(),
                image_format: spec_gl_rgb(),
                wrap_s: spec_gl_repeat(),
                wrap_t: spec_gl_repeat(),
                filter_min: spec_gl_linear(),
                filter_max: spec_gl_linear(),
            }),
    {
        Texture2D {
            id,
            width: 0,
            height: 0,
            internal_format: gl_rgb(),
            image_format: gl_rgb(),
            wrap_s: gl_repeat(),
            wrap_t: gl_repeat(),
            filter_min: gl_linear(),
            filter_max: gl_linear(),
        }
    }

    /// Switches both formats to RGBA for images with an alpha channel.
    pub fn use_alpha(&mut self)
        ensures
            *final(self) == (Texture2D {
                internal_format: spec_gl_rgba(),
                image_format: spec_gl_rgba(),
                ..*old(self)
            }),
    {
        self.internal_format = gl_rgba();
        self.image_format = gl_rgba();
    }

    /// The description of texture object `id` that an image of `width` by `height` pixels is
    /// uploaded into, with an alpha channel when `alpha` is set.
    pub fn for_image(id: u32, alpha: bool, width: u32, height: u32) -> (r: Self)
        ensures
            r == image_texture(id, alpha, width, height),
    {
        let mut texture = Texture2D::new(id);
        if alpha {
            texture.use_alpha();
        }
        texture.set_size(width, height);
        texture
    }

    /// Records the size of the image that is uploaded into the texture.
    pub fn set_size(&mut self, width: u32, height: u32)
        ensures
            *final(self) == (Texture2D { width: width, height: height, ..*old(self) }),
    {
        self.width = width;
        self.height = height;
    }
}

} // verus!
