//! Turning decoded pixels into an image that the renderer can draw.

use speedy2d::dimen::UVec2;
use speedy2d::image::{ImageDataType, ImageHandle, ImageSmoothingMode};
use speedy2d::Graphics2D;
use vstd::prelude::*;

verus! {

/// `speedy2d::Graphics2D`, the renderer of the current frame, held as an
/// opaque handle.
#[verifier::external_type_specification]
#[verifier::external_body]
pub struct ExGraphics2D(Graphics2D);

/// `speedy2d::image::ImageHandle`, an image that lives in the renderer, held
/// as an opaque handle.
#[verifier::external_type_specification]
#[verifier::external_body]
pub struct ExImageHandle(ImageHandle);

/// The number of bytes of a `width` x `height` image with four bytes to the
/// pixel.
pub open spec fn rgba_len(width: u32, height: u32) -> int {
    4 * width * height
}

/// Whether a buffer of `len` bytes holds exactly `width` x `height` pixels of
/// four bytes each, and a single row of them can be counted in `usize`.
pub open spec fn rgba_shaped(len: nat, width: u32, height: u32) -> bool {
    len == rgba_len(width, height) && 4 * width <= usize::MAX
}

/// Whether a buffer of `len` bytes holds exactly `width` x `height` pixels of
/// four bytes each.
pub fn is_rgba(len: usize, width: u32, height: u32) -> (exact: bool)
    ensures
        exact == (len == rgba_len(width, height)),
{
    assert(width * height <= 0xffff_ffff * 0xffff_ffff) by (nonlinear_arith)
        requires
            width <= 0xffff_ffff,
            height <= 0xffff_ffff,
    ;
    assert(4 * width * height == 4 * (width * height)) by (nonlinear_arith);
    let pixels: u128 = (width as u128) * (height as u128);
    len as u128 == 4 * pixels
}

/// What the pipeline asks of a renderer: to make a drawable image of raw
/// pixels. It is only ever asked on the thread that owns the renderer.
pub trait Renderer {
    /// The renderer's drawable image.
    type Image;

    /// What this renderer may do when it is asked for an image: whether,
    /// asked as it is now for an image of `bytes` read as `width` x `height`
    /// pixels, it may answer `image` and be left as `after`. A renderer that
    /// says nothing of itself admits every answer.
    open spec fn answers(
        &self,
        bytes: Seq<u8>,
        width: u32,
        height: u32,
        image: Option<Self::Image>,
        after: &Self,
    ) -> bool {
        true
    }

    /// Makes an image of `bytes`, which hold `width` x `height` pixels of
    /// four bytes each (red, green, blue, alpha), row by row. `None` where
    /// the renderer cannot.
    fn create_image(&mut self, bytes: &Vec<u8>, width: u32, height: u32) -> (image: Option<
        Self::Image,
    >)
        requires
            rgba_shaped(bytes@.len(), width, height),
        ensures
            old(self).answers(bytes@, width, height, image, final(self)),
    ;
}

/// `Graphics2D::create_image_from_raw_pixels` for RGBA bytes with linear
/// smoothing. The renderer multiplies four by the width and then by the
/// height in `usize` before it compares the product with the buffer's length;
/// the buffer must be of that length, and four times the width must fit, so
/// that neither product can overflow. Whether the renderer then makes the
/// image depends on its graphics context, so nothing is claimed of the
/// result.
#[verifier::external_body]
fn create_image_from_raw_pixels(
    graphics: &mut Graphics2D,
    bytes: &Vec<u8>,
    width: u32,
    height: u32,
) -> (image: Option<ImageHandle>)
    requires
        rgba_shaped(bytes@.len(), width, height),
{
    graphics.create_image_from_raw_pixels(
        ImageDataType::RGBA,
        ImageSmoothingMode::Linear,
        UVec2::new(width, height),
        bytes,
    ).ok()
}

/// The renderer of the window. Whether its graphics context makes a texture
/// is not for this library to say, so it admits every answer.
impl Renderer for Graphics2D {
    type Image = ImageHandle;

    fn create_image(&mut self, bytes: &Vec<u8>, width: u32, height: u32) -> (image: Option<
        ImageHandle,
    >) {
        create_image_from_raw_pixels(self, bytes, width, height)
    }
}

/// Asks `renderer` for an image of `bytes`, read as `width` x `height` RGBA
/// pixels. A buffer of any other length is refused here and never reaches the
/// renderer, and so is a width that cannot be counted in bytes: the renderer
/// is left as it was. For the rest the renderer is asked once, for exactly
/// these bytes and dimensions, and its answer is handed on.
pub fn realize<R: Renderer>(renderer: &mut R, bytes: &Vec<u8>, width: u32, height: u32) -> (image:
    Option<R::Image>)
    ensures
        rgba_shaped(bytes@.len(), width, height) ==> old(renderer).answers(
            bytes@,
            width,
            height,
            image,
            final(renderer),
        ),
        !rgba_shaped(bytes@.len(), width, height) ==> image is None && *final(renderer) == *old(
            renderer,
        ),
{
    if is_rgba(bytes.len(), width, height) && 4 * (width as u64) <= usize::MAX as u64 {
        renderer.create_image(bytes, width, height)
    } else {
        None
    }
}

} // verus!
