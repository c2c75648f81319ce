//! The icon of the window: a picture file taken apart into pixels.
use vstd::prelude::*;

verus! {

/// Pixels of four bytes each (red, green, blue, opacity), row by row.
pub struct IconPixels {
    pub rgba: Vec<u8>,
    pub width: u32,
    pub height: u32,
}

/// The pixels, the width and the height that a picture file holds, if it is one.
pub uninterp spec fn picture_held(bytes: Seq<u8>) -> Option<(Seq<u8>, u32, u32)>;

/// Reads a picture with `image::load_from_memory` and turns it into pixels of four bytes with
/// `DynamicImage::into_rgba8`. The pixels and the size are a function of the bytes alone; bytes
/// that are no picture give none. Which bytes hold which picture is left unsaid.
#[verifier::external_body]
fn read_picture(bytes: &[u8]) -> (r: Option<(Vec<u8>, u32, u32)>)
    ensures
        match r {
            Some(p) => picture_held(bytes@) == Some((p.0@, p.1, p.2)),
            None => picture_held(bytes@) is None,
        },
{
    match image::load_from_memory(bytes) {
        Ok(picture) => {
            let rgba = picture.into_rgba8();
            let (width, height) = rgba.dimensions();
            Some((rgba.into_raw(), width, height))
        },
        Err(_) => None,
    }
}

/// The pixels fill a picture of the given size, and their number fits its register.
pub open spec fn fills(count: int, width: u32, height: u32) -> bool {
    width * height <= u32::MAX && count == 4 * (width * height)
}

/// The icon that pixels of the given size make; none where they do not fill it.
pub fn make_icon(rgba: Vec<u8>, width: u32, height: u32) -> (r: Option<IconPixels>)
    ensures
        match r {
            Some(icon) => fills(rgba@.len() as int, width, height) && icon.rgba@ == rgba@
                && icon.width == width && icon.height == height,
            None => !fills(rgba@.len() as int, width, height),
        },
{
    match width.checked_mul(height) {
        Some(pixels) => if rgba.len() as u64 == 4 * pixels as u64 {
            Some(IconPixels { rgba, width, height })
        } else {
            None
        },
        None => None,
    }
}

/// The icon that a picture file holds, if it holds one.
pub fn icon_from_file(bytes: &[u8]) -> (r: Option<IconPixels>)
    ensures
        match r {
            Some(icon) => picture_held(bytes@) == Some((icon.rgba@, icon.width, icon.height))
                && fills(icon.rgba@.len() as int, icon.width, icon.height),
            None => match picture_held(bytes@) {
                Some(p) => !fills(p.0.len() as int, p.1, p.2),
                None => true,
            },
        },
{
    match read_picture(bytes) {
        Some((rgba, width, height)) => make_icon(rgba, width, height),
        None => None,
    }
}

} // verus!
