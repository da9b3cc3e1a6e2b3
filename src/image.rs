use vstd::prelude::*;

verus! {

/// Why a pixel buffer cannot be encoded as an image of the given size.
#[derive(Clone, Copy, Debug, PartialEq, Eq, Structural)]
pub enum PixelBufferError {
    /// The byte count is not a whole number of RGB pixels.
    PartialPixel,
    /// The buffer holds whole pixels, but not `height * width` of them.
    SizeMismatch,
}

/// Checks that `pixel_values` holds exactly one RGB triple per pixel of an
/// image `img_height` rows by `img_width` columns.
pub fn check_pixel_buffer(img_height: u32, img_width: u32, pixel_values: &[u8]) -> (r: Result<(), PixelBufferError>)
    ensures
        r is Ok <==> pixel_values@.len() == 3 * img_height * img_width,
        r == Err::<(), PixelBufferError>(PixelBufferError::PartialPixel) <==> pixel_values@.len() % 3 != 0,
        r == Err::<(), PixelBufferError>(PixelBufferError::SizeMismatch) <==> (pixel_values@.len() % 3 == 0
            && pixel_values@.len() != 3 * img_height * img_width),
{
    let len = pixel_values.len();
    let ghost area = img_height * img_width;
    assert(3 * img_height * img_width == 3 * area && 0 <= area <= 0xffff_ffff * 0xffff_ffff) by (nonlinear_arith)
        requires
            area == img_height * img_width,
    ;
    if len % 3 != 0 {
        return Err(PixelBufferError::PartialPixel);
    }
    let pixels: u64 = img_height as u64 * img_width as u64;
    if (len / 3) as u64 != pixels {
        return Err(PixelBufferError::SizeMismatch);
    }
    Ok(())
}

} // verus!
