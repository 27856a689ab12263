//! The decisions of a render around the raw decoder and the colour pipeline:
//! how the EXIF orientation turns the raster, and how a render's failure
//! reaches the client.
use vstd::prelude::*;
use crate::response::ResponseBody;

verus! {

/// The largest width or height of a rendered image, in pixels.
pub const MAX_EDGE: u32 = 2048;

/// A clockwise turn of the decoded raster.
#[derive(Clone, Copy, Debug, PartialEq, Eq, Structural)]
pub enum Rotation {
    Identity,
    Quarter,
    ThreeQuarter,
}

/// The turn for an EXIF orientation code: codes 5 and 6 turn a quarter, 7 and
/// 8 three quarters, and every other code (the mirrored and half-turn ones
/// among them) leaves the raster as it is.
pub open spec fn rotation_of(code: u16) -> Rotation {
    if code == 5 || code == 6 {
        Rotation::Quarter
    } else if code == 7 || code == 8 {
        Rotation::ThreeQuarter
    } else {
        Rotation::Identity
    }
}

pub fn rotation_for(code: u16) -> (r: Rotation)
    ensures
        r == rotation_of(code),
{
    if code == 5 || code == 6 {
        Rotation::Quarter
    } else if code == 7 || code == 8 {
        Rotation::ThreeQuarter
    } else {
        Rotation::Identity
    }
}

/// Width and height of a `width` by `height` raster after `rotation`.
pub open spec fn turned(width: u32, height: u32, rotation: Rotation) -> (u32, u32) {
    match rotation {
        Rotation::Identity => (width, height),
        _ => (height, width),
    }
}

pub fn oriented_size(width: u32, height: u32, rotation: Rotation) -> (r: (u32, u32))
    ensures
        r == turned(width, height, rotation),
{
    match rotation {
        Rotation::Identity => (width, height),
        _ => (height, width),
    }
}

/// For one source raster, orientation codes 6 and 8 give an image whose width
/// and height are those of code 1 swapped.
pub proof fn lemma_side_codes_swap_size(width: u32, height: u32)
    ensures
        turned(width, height, rotation_of(1)) == (width, height),
        turned(width, height, rotation_of(6)) == (height, width),
        turned(width, height, rotation_of(8)) == (height, width),
{
}

/// Why a file could not be rendered.
#[derive(Clone, Copy, Debug, PartialEq, Eq, Structural)]
pub enum RenderError {
    /// The file could not be opened or read.
    Unreadable,
    /// No raw decoder recognises the file.
    UnsupportedFormat,
    /// The raw data gives no development parameters.
    InvalidImage,
    /// The file's metadata holds no orientation.
    MissingOrientation,
}

pub open spec fn render_error_text(e: RenderError) -> Seq<char> {
    match e {
        RenderError::Unreadable => "failed to decode image: file unreadable"@,
        RenderError::UnsupportedFormat => "failed to decode image: unsupported format"@,
        RenderError::InvalidImage => "failed to decode image: invalid image"@,
        RenderError::MissingOrientation => "failed to decode image: no orientation"@,
    }
}

impl RenderError {
    /// The text of the error response that carries this failure.
    pub fn message(&self) -> (r: String)
        ensures
            r@ == render_error_text(*self),
    {
        proof {
            reveal_strlit("failed to decode image: file unreadable");
            reveal_strlit("failed to decode image: unsupported format");
            reveal_strlit("failed to decode image: invalid image");
            reveal_strlit("failed to decode image: no orientation");
        }
        match self {
            RenderError::Unreadable => "failed to decode image: file unreadable".to_owned(),
            RenderError::UnsupportedFormat => "failed to decode image: unsupported format".to_owned(),
            RenderError::InvalidImage => "failed to decode image: invalid image".to_owned(),
            RenderError::MissingOrientation => "failed to decode image: no orientation".to_owned(),
        }
    }
}

/// The turn that a file's metadata calls for; a file without an orientation
/// cannot be rendered.
pub fn orientation_of(code: Option<u16>) -> (r: Result<Rotation, RenderError>)
    ensures
        code matches Some(c) ==> r == Ok::<Rotation, RenderError>(rotation_of(c)),
        code is None ==> r == Err::<Rotation, RenderError>(RenderError::MissingOrientation),
{
    match code {
        Some(c) => Ok(rotation_for(c)),
        None => Err(RenderError::MissingOrientation),
    }
}

/// An 8-bit RGB raster, three bytes a pixel, row by row.
pub struct Rendered {
    pub pixels: Vec<u8>,
    pub width: u32,
    pub height: u32,
}

/// The outcome of a render as a handler outcome: the image, or the error's text.
pub fn image_outcome(outcome: Result<Rendered, RenderError>) -> (r: Result<ResponseBody, String>)
    ensures
        outcome matches Ok(img) ==> r matches Ok(ResponseBody::Image { pixels, width, height })
            && pixels@ == img.pixels@ && width == img.width && height == img.height,
        outcome matches Err(e) ==> r matches Err(m) && m@ == render_error_text(e),
{
    match outcome {
        Ok(img) => Ok(ResponseBody::Image { pixels: img.pixels, width: img.width, height: img.height }),
        Err(e) => Err(e.message()),
    }
}

} // verus!
