//! Exporting the image of a node: the pixels read from the graph must fill an RGBA
//! image of the node's size before they are saved.
use crate::node::Size;
use vstd::prelude::*;

verus! {

/// Calls `image::RgbaImage::from_vec`, which makes an image of `width` by `height`
/// pixels of four channels from `buf`, and hands back the image's bytes. Its source
/// makes an image when `buf` holds at least four bytes for each pixel, counted
/// without overflow in `usize`, and none otherwise; the image keeps `buf` as its
/// bytes. The contract claims those two things.
#[verifier::external_body]
fn rgba_image_from_vec(width: u32, height: u32, buf: Vec<u8>) -> (r: Option<Vec<u8>>)
    ensures
        r is Some <==> 4 * width * height <= buf@.len(),
        r matches Some(bytes) ==> bytes@ == buf@,
{
    match image::RgbaImage::from_vec(width, height, buf) {
        Some(image) => Some(image.into_raw()),
        None => None,
    }
}

/// Why the pixels of a node could not become an image.
#[derive(Clone, Copy, Debug, PartialEq, Eq, Structural)]
pub enum ExportError {
    /// There are fewer than four bytes for each pixel of the size.
    BufferTooSmall,
}

/// The number of bytes that an RGBA image of `size` holds.
pub open spec fn rgba_len(size: Size) -> int {
    4 * size.width * size.height
}

/// Checks that the pixels `texels`, four bytes each, row by row, fill an RGBA image of
/// `size`, and hands them back as that image's bytes; fails when there are too few.
pub fn rgba_image(size: Size, texels: Vec<u8>) -> (r: Result<Vec<u8>, ExportError>)
    ensures
        r is Ok <==> rgba_len(size) <= texels@.len(),
        r matches Ok(bytes) ==> bytes@ == texels@,
        r matches Err(e) ==> e == ExportError::BufferTooSmall,
{
    match rgba_image_from_vec(size.width, size.height, texels) {
        Some(bytes) => Ok(bytes),
        None => Err(ExportError::BufferTooSmall),
    }
}

} // verus!
