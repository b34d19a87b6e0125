//! Loading image files into 8-bit RGB or RGBA pixel buffers.
//!
//! Reading the file is left to the caller; this module picks the image
//! format, decodes through the `image` crate and orients the rows.

use vstd::prelude::*;
use vstd::arithmetic::div_mod::{
    lemma_fundamental_div_mod_converse_div,
    lemma_fundamental_div_mod_converse_mod,
};

verus! {

#[verifier::external_type_specification]
#[verifier::external_body]
pub struct ExImageFormat(::image::ImageFormat);

#[verifier::external_type_specification]
#[verifier::external_body]
pub struct ExDynamicImage(::image::DynamicImage);

#[verifier::external_type_specification]
#[verifier::external_body]
pub struct ExImageError(::image::ImageError);

#[verifier::external_type_specification]
#[verifier::external_body]
pub struct ExIoError(std::io::Error);

/// The format that `image::ImageFormat::from_path` derives from a path's extension.
pub uninterp spec fn extension_format(path: Seq<char>) -> Option<::image::ImageFormat>;

/// The format that `image::guess_format` recognises from the leading bytes of an encoded image.
pub uninterp spec fn content_format(bytes: Seq<u8>) -> Option<::image::ImageFormat>;

/// The image that `image::load_from_memory_with_format` decodes, when it succeeds.
pub uninterp spec fn decoded_image(bytes: Seq<u8>, format: ::image::ImageFormat) -> Option<
    ::image::DynamicImage,
>;

/// Width, height and row-major RGB bytes that `DynamicImage::to_rgb8` produces.
pub uninterp spec fn rgb8_of(image: ::image::DynamicImage) -> (u32, u32, Seq<u8>);

/// Width, height and row-major RGBA bytes that `DynamicImage::to_rgba8` produces.
pub uninterp spec fn rgba8_of(image: ::image::DynamicImage) -> (u32, u32, Seq<u8>);

/// A decoded image: `channels` bytes per pixel, rows stored top to bottom.
pub struct ImageData {
    width: u32,
    height: u32,
    channels: u32,
    pixels: Vec<u8>,
}

/// The plain value of an image: width, height, bytes per pixel and the bytes.
pub struct ImageView {
    pub width: nat,
    pub height: nat,
    pub channels: nat,
    pub pixels: Seq<u8>,
}

impl View for ImageData {
    type V = ImageView;

    closed spec fn view(&self) -> ImageView {
        ImageView {
            width: self.width as nat,
            height: self.height as nat,
            channels: self.channels as nat,
            pixels: self.pixels@,
        }
    }
}

impl ImageView {
    /// The number of bytes in one row.
    pub open spec fn stride(self) -> nat {
        self.width * self.channels
    }

    /// The buffer holds exactly `height` rows of `stride` bytes.
    pub open spec fn wf(self) -> bool {
        self.pixels.len() == self.height * self.stride()
    }

    /// The same image with its rows in the opposite order.
    pub open spec fn flipped(self) -> ImageView {
        ImageView {
            width: self.width,
            height: self.height,
            channels: self.channels,
            pixels: flip_rows(self.pixels, self.stride(), self.height),
        }
    }
}

/// Row-major bytes with row `r` moved to row `height - 1 - r`.
pub open spec fn flip_rows(pixels: Seq<u8>, stride: nat, height: nat) -> Seq<u8> {
    Seq::new(
        pixels.len(),
        |i: int| pixels[(height - 1 - i / (stride as int)) * stride + i % (stride as int)],
    )
}

/// An image built from the result of a conversion: `(width, height, bytes)`.
pub open spec fn image_view_of(converted: (u32, u32, Seq<u8>), channels: nat) -> ImageView {
    ImageView {
        width: converted.0 as nat,
        height: converted.1 as nat,
        channels: channels,
        pixels: converted.2,
    }
}

/// Byte `c` of pixel `p` in a buffer of `channels` bytes per pixel.
pub open spec fn channel_byte(pixels: Seq<u8>, channels: int, p: int, c: int) -> u8 {
    pixels[channels * p + c]
}

/// `rgb` is `rgba` with the alpha channel dropped: the same size, and each pixel with the
/// same red, green and blue bytes, in the same order.
pub open spec fn rgb_of_rgba(rgb: ImageView, rgba: ImageView) -> bool {
    &&& rgb.width == rgba.width
    &&& rgb.height == rgba.height
    &&& forall|p: int, c: int|
        0 <= p < rgb.width * rgb.height && 0 <= c < 3 ==> #[trigger] channel_byte(rgb.pixels, 3, p, c)
            == channel_byte(rgba.pixels, 4, p, c)
}

impl ImageData {
    /// Width in pixels.
    pub fn width(&self) -> (r: u32)
        ensures
            r == self@.width,
    {
        self.width
    }

    /// Height in pixels.
    pub fn height(&self) -> (r: u32)
        ensures
            r == self@.height,
    {
        self.height
    }

    /// Bytes per pixel: 3 for RGB, 4 for RGBA.
    pub fn channels(&self) -> (r: u32)
        ensures
            r == self@.channels,
    {
        self.channels
    }

    /// The row-major pixel bytes.
    pub fn as_raw(&self) -> (r: &Vec<u8>)
        ensures
            r@ == self@.pixels,
    {
        &self.pixels
    }

    /// The number of bytes in the buffer.
    pub fn len(&self) -> (r: usize)
        ensures
            r == self@.pixels.len(),
    {
        self.pixels.len()
    }
}

/// Why an image could not be loaded.
pub enum LoadImageError {
    /// The file could not be read.
    Io(std::io::Error),
    /// Neither the leading bytes nor the extension name a supported format.
    UnknownFormat,
    /// The bytes are not a valid image of the chosen format.
    Decode(::image::ImageError),
}

/// Calls `image::ImageFormat::from_path`; the contract claims that the result is
/// a function of the path alone.
#[verifier::external_body]
fn format_from_path(path: &str) -> (r: Option<::image::ImageFormat>)
    ensures
        r == extension_format(path@),
{
    ::image::ImageFormat::from_path(path).ok()
}

/// Calls `image::guess_format`; the contract claims that the result is a function
/// of the bytes alone.
#[verifier::external_body]
fn format_from_content(bytes: &[u8]) -> (r: Option<::image::ImageFormat>)
    ensures
        r == content_format(bytes@),
{
    ::image::guess_format(bytes).ok()
}

/// Calls `image::load_from_memory_with_format`; the contract claims that success and
/// the decoded image are functions of the bytes and the format alone. The error value
/// is left unsaid.
#[verifier::external_body]
fn decode_with_format(bytes: &[u8], format: ::image::ImageFormat) -> (r: Result<
    ::image::DynamicImage,
    ::image::ImageError,
>)
    ensures
        r is Ok <==> decoded_image(bytes@, format) is Some,
        r matches Ok(img) ==> decoded_image(bytes@, format) == Some(img),
{
    ::image::load_from_memory_with_format(bytes, format)
}

/// Calls `DynamicImage::to_rgb8` and takes the buffer apart; the contract claims the
/// result is a function of the image, that the buffer holds three bytes per pixel, and that
/// it is what `to_rgba8` gives with the alpha channel dropped (both convert every pixel of
/// the same size buffer with the same channel conversion, the RGBA one adding alpha).
#[verifier::external_body]
fn convert_to_rgb8(image: &::image::DynamicImage) -> (r: ImageData)
    ensures
        r@ == image_view_of(rgb8_of(*image), 3),
        r@.wf(),
        rgb_of_rgba(r@, image_view_of(rgba8_of(*image), 4)),
{
    let buffer = image.to_rgb8();
    ImageData { width: buffer.width(), height: buffer.height(), channels: 3, pixels: buffer.into_raw() }
}

/// Calls `DynamicImage::to_rgba8` and takes the buffer apart; the contract claims the
/// result is a function of the image and that the buffer holds four bytes per pixel.
#[verifier::external_body]
fn convert_to_rgba8(image: &::image::DynamicImage) -> (r: ImageData)
    ensures
        r@ == image_view_of(rgba8_of(*image), 4),
        r@.wf(),
{
    let buffer = image.to_rgba8();
    ImageData { width: buffer.width(), height: buffer.height(), channels: 4, pixels: buffer.into_raw() }
}

/// The format used for a file: the one its leading bytes name, else the one its
/// extension names.
pub open spec fn chosen_format(path: Seq<char>, bytes: Seq<u8>) -> Option<::image::ImageFormat> {
    match content_format(bytes) {
        Some(f) => Some(f),
        None => extension_format(path),
    }
}

/// Picks the format of an encoded image as a file reader does: by content, falling
/// back to the extension of `path`.
pub fn choose_format(path: &str, bytes: &[u8]) -> (r: Option<::image::ImageFormat>)
    ensures
        r == chosen_format(path@, bytes@),
{
    let by_extension = format_from_path(path);
    match format_from_content(bytes) {
        Some(f) => Some(f),
        None => by_extension,
    }
}

/// Loading succeeds: a format is known for the file and its bytes decode in that format.
pub open spec fn load_succeeds(path: Seq<char>, bytes: Seq<u8>) -> bool {
    &&& chosen_format(path, bytes) is Some
    &&& decoded_image(bytes, chosen_format(path, bytes)->0) is Some
}

/// The image that a successful load produces.
pub open spec fn loaded_view(path: Seq<char>, bytes: Seq<u8>, channels: nat, flip: bool) -> ImageView {
    let img = decoded_image(bytes, chosen_format(path, bytes)->0)->0;
    let converted = if channels == 3 {
        image_view_of(rgb8_of(img), 3)
    } else {
        image_view_of(rgba8_of(img), 4)
    };
    if flip {
        converted.flipped()
    } else {
        converted
    }
}

/// What loading gives: the read error when the file could not be read, `UnknownFormat`
/// exactly when no format is known, `Decode` exactly when decoding fails, else the decoded
/// image converted to `channels` bytes per pixel and, if `flip`, with its rows reversed.
pub open spec fn load_result(
    path: Seq<char>,
    contents: Result<Vec<u8>, std::io::Error>,
    channels: nat,
    flip: bool,
    r: Result<ImageData, LoadImageError>,
) -> bool {
    match contents {
        Err(e) => r matches Err(LoadImageError::Io(e2)) && e2 == e,
        Ok(bytes) => {
            &&& (chosen_format(path, bytes@) is None <==> r matches Err(LoadImageError::UnknownFormat))
            &&& (chosen_format(path, bytes@) is Some && !load_succeeds(path, bytes@)
                <==> r matches Err(LoadImageError::Decode(_)))
            &&& (load_succeeds(path, bytes@) <==> r is Ok)
            &&& r matches Ok(img) ==> img@ == loaded_view(path, bytes@, channels, flip) && img@.wf()
        },
    }
}

proof fn lemma_row_col(i: int, stride: int, row: int, col: int)
    requires
        stride > 0,
        0 <= col < stride,
        i == row * stride + col,
    ensures
        i / stride == row,
        i % stride == col,
{
    lemma_fundamental_div_mod_converse_div(i, stride, row, col);
    lemma_fundamental_div_mod_converse_mod(i, stride, row, col);
}

/// Reverses the order of the rows of an image (the `flipv` of the `image` crate).
pub fn flip_vertical(image: ImageData) -> (r: ImageData)
    requires
        image@.wf(),
    ensures
        r@ == image@.flipped(),
        r@.wf(),
{
    let ImageData { width, height, channels, pixels } = image;
    let ghost v = ImageView { width: width as nat, height: height as nat, channels: channels as nat, pixels: pixels@ };
    let ghost spec_out = flip_rows(pixels@, v.stride(), height as nat);
    let ghost h = height as int;
    let ghost s = v.stride() as int;
    let stride: usize;
    if width == 0 || channels == 0 || height == 0 {
        proof {
            assert(v.stride() == 0 || height == 0) by (nonlinear_arith)
                requires width == 0 || channels == 0 || height == 0, v.stride() == width * channels;
            assert(pixels@.len() == 0) by (nonlinear_arith)
                requires pixels@.len() == height * v.stride(), v.stride() == 0 || height == 0;
            assert(pixels@ =~= spec_out);
        }
        return ImageData { width, height, channels, pixels };
    }
    proof {
        assert(s > 0) by (nonlinear_arith) requires s == width * channels, width > 0, channels > 0;
        assert(s <= h * s) by (nonlinear_arith) requires h >= 1, s > 0;
    }
    stride = pixels.len() / (height as usize);
    proof {
        lemma_row_col(pixels@.len() as int, h, s, 0);
        assert(pixels@.len() as int == s * h) by (nonlinear_arith) requires pixels@.len() as int == h * s;
        assert(stride == s);
    }
    assert(pixels@.len() <= usize::MAX);
    let mut out: Vec<u8> = Vec::new();
    let mut row: usize = 0;
    while row < height as usize
        invariant
            0 <= row <= h,
            h == height,
            s == stride,
            s > 0,
            pixels@.len() == h * s,
            h * s <= usize::MAX,
            spec_out == flip_rows(pixels@, s as nat, h as nat),
            out@.len() == row * s,
            forall|i: int| 0 <= i < out@.len() ==> out@[i] == spec_out[i],
        decreases h - row,
    {
        let src_row = height as usize - 1 - row;
        proof {
            assert((src_row + 1) * s <= h * s) by (nonlinear_arith) requires src_row + 1 <= h, s > 0;
            assert((src_row + 1) * s == src_row * s + s) by (nonlinear_arith);
            assert(src_row * s <= h * s);
        }
        let start = src_row * stride;
        let mut col: usize = 0;
        while col < stride
            invariant
                0 <= row < h,
                h == height,
                s == stride,
                s > 0,
                src_row == h - 1 - row,
                start == src_row * s,
                start + s <= h * s,
                pixels@.len() == h * s,
                h * s <= usize::MAX,
                spec_out == flip_rows(pixels@, s as nat, h as nat),
                0 <= col <= s,
                out@.len() == row * s + col,
                forall|i: int| 0 <= i < out@.len() ==> out@[i] == spec_out[i],
            decreases s - col,
        {
            proof {
                let i = row * s + col;
                lemma_row_col(i, s, row as int, col as int);
                assert(i < pixels@.len()) by (nonlinear_arith)
                    requires i == row * s + col, col < s, row < h, pixels@.len() == h * s;
            }
            out.push(pixels[start + col]);
            col = col + 1;
        }
        proof {
            assert(out@.len() == (row + 1) * s) by (nonlinear_arith)
                requires out@.len() == row * s + s;
        }
        row = row + 1;
    }
    proof {
        assert(out@ =~= spec_out);
    }
    ImageData { width, height, channels, pixels: out }
}

/// Flipping reverses the rows: the byte in column `col` of row `row` of the flipped image is
/// the byte in column `col` of row `height - 1 - row` of the image, and nothing else changes.
pub proof fn lemma_flip_reverses_rows(image: ImageView, row: int, col: int)
    requires
        image.wf(),
        0 <= row < image.height,
        0 <= col < image.width * image.channels,
    ensures
        image.flipped().pixels.len() == image.pixels.len(),
        image.flipped().width == image.width,
        image.flipped().height == image.height,
        image.flipped().channels == image.channels,
        image.flipped().pixels[row * (image.width * image.channels) + col] == image.pixels[(image.height - 1
            - row) * (image.width * image.channels) + col],
{
    let s = (image.width * image.channels) as int;
    let i = row * s + col;
    lemma_row_col(i, s, row, col);
    assert(0 <= i < image.pixels.len()) by (nonlinear_arith)
        requires
            i == row * s + col,
            0 <= row < image.height,
            0 <= col < s,
            image.pixels.len() == image.height * s,
    ;
}

/// Flipping the rows twice gives back the image.
pub proof fn lemma_flip_twice(image: ImageView)
    requires
        image.wf(),
    ensures
        image.flipped().flipped() == image,
{
    let s = image.stride() as int;
    let h = image.height as int;
    let p = image.pixels;
    let once = flip_rows(p, s as nat, h as nat);
    let twice = flip_rows(once, s as nat, h as nat);
    if s > 0 {
        assert forall|i: int| 0 <= i < p.len() implies twice[i] == p[i] by {
            let row = i / s;
            let col = i % s;
            assert(i == row * s + col) by {
                vstd::arithmetic::div_mod::lemma_fundamental_div_mod(i, s);
                vstd::arithmetic::mul::lemma_mul_is_commutative(s, row);
            }
            assert(0 <= col < s) by {
                vstd::arithmetic::div_mod::lemma_mod_pos_bound(i, s);
            }
            assert(0 <= row < h) by {
                assert(row * s < h * s);
                if row >= h {
                    assert(row * s >= h * s) by (nonlinear_arith) requires row >= h, s > 0;
                }
                vstd::arithmetic::div_mod::lemma_div_pos_is_pos(i, s);
            }
            let j = (h - 1 - row) * s + col;
            lemma_row_col(j, s, h - 1 - row, col);
            assert(0 <= j < p.len()) by (nonlinear_arith)
                requires j == (h - 1 - row) * s + col, 0 <= row < h, 0 <= col < s, p.len() == h * s;
            assert(once[j] == p[(h - 1 - (h - 1 - row)) * s + col]);
        }
    } else {
        assert(p.len() == 0) by (nonlinear_arith) requires p.len() == h * s, s == 0;
    }
    assert(twice =~= p);
}

/// The flipping loaders give the image of the non-flipping ones with its rows reversed.
pub proof fn lemma_flipped_loaders(path: Seq<char>, bytes: Seq<u8>, channels: nat)
    ensures
        loaded_view(path, bytes, channels, true) == loaded_view(path, bytes, channels, false).flipped(),
{
}

fn load_image_data(
    path: String,
    contents: Result<Vec<u8>, std::io::Error>,
    channels: u32,
    flip: bool,
) -> (r: Result<ImageData, LoadImageError>)
    requires
        channels == 3 || channels == 4,
    ensures
        load_result(path@, contents, channels as nat, flip, r),
        channels == 3 && !flip ==> match (contents, r) {
            (Ok(bytes), Ok(img)) => rgb_of_rgba(img@, loaded_view(path@, bytes@, 4, false)),
            _ => true,
        },
{
    let bytes = match contents {
        Err(e) => {
            return Err(LoadImageError::Io(e));
        },
        Ok(bytes) => bytes,
    };
    let format = match choose_format(path.as_str(), bytes.as_slice()) {
        None => {
            return Err(LoadImageError::UnknownFormat);
        },
        Some(f) => f,
    };
    let decoded = match decode_with_format(bytes.as_slice(), format) {
        Err(e) => {
            return Err(LoadImageError::Decode(e));
        },
        Ok(img) => img,
    };
    let converted = if channels == 3 {
        convert_to_rgb8(&decoded)
    } else {
        convert_to_rgba8(&decoded)
    };
    if flip {
        Ok(flip_vertical(converted))
    } else {
        Ok(converted)
    }
}

/// Decodes the contents of the file at `path` into RGB with the rows in reverse order
/// (bottom row first, as OpenGL textures expect).
pub fn load_image_data_rgb(path: String, contents: Result<Vec<u8>, std::io::Error>) -> (r: Result<
    ImageData,
    LoadImageError,
>)
    ensures
        load_result(path@, contents, 3, true, r),
{
    load_image_data(path, contents, 3, true)
}

/// Decodes the contents of the file at `path` into RGBA with the rows in reverse order.
pub fn load_image_data_rgba(path: String, contents: Result<Vec<u8>, std::io::Error>) -> (r: Result<
    ImageData,
    LoadImageError,
>)
    ensures
        load_result(path@, contents, 4, true, r),
{
    load_image_data(path, contents, 4, true)
}

/// Decodes the contents of the file at `path` into RGB, rows in file order: the image that
/// `load_image_data_rgba_without_flip` gives for the same contents, with alpha dropped.
pub fn load_image_data_rgb_without_flip(
    path: String,
    contents: Result<Vec<u8>, std::io::Error>,
) -> (r: Result<ImageData, LoadImageError>)
    ensures
        load_result(path@, contents, 3, false, r),
        match (contents, r) {
            (Ok(bytes), Ok(img)) => rgb_of_rgba(img@, loaded_view(path@, bytes@, 4, false)),
            _ => true,
        },
{
    load_image_data(path, contents, 3, false)
}

/// Decodes the contents of the file at `path` into RGBA, rows in file order.
pub fn load_image_data_rgba_without_flip(
    path: String,
    contents: Result<Vec<u8>, std::io::Error>,
) -> (r: Result<ImageData, LoadImageError>)
    ensures
        load_result(path@, contents, 4, false, r),
{
    load_image_data(path, contents, 4, false)
}

} // verus!
