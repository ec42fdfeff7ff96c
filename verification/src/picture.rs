//! Pictures that arrive as text: base64 around an encoded image, turned
//! into rows of RGBA pixels for the clipboard.

use vstd::prelude::*;
use crate::text::{trim, trimmed};

verus! {

#[verifier::external_type_specification]
#[verifier::external_body]
pub struct ExDecodeError(base64::DecodeError);

#[verifier::external_type_specification]
#[verifier::external_body]
pub struct ExImageError(image::ImageError);

/// A decoded image as plain values: its size and its samples, four for
/// each pixel.
pub struct Raster {
    pub width: nat,
    pub height: nat,
    pub pixels: Seq<u8>,
}

impl Raster {
    /// Whether there are four samples for each pixel.
    pub open spec fn wf(self) -> bool {
        self.pixels.len() == 4 * self.width * self.height
    }
}

/// The bytes that `base64::decode` gives for `text`, or `None` where it
/// refuses the text.
pub uninterp spec fn base64_decoded(text: Seq<char>) -> Option<Seq<u8>>;

/// What `image::load_from_memory` makes of `bytes`, turned into RGBA
/// samples of eight bits, or `None` where it refuses the bytes.
pub uninterp spec fn rgba_decoded(bytes: Seq<u8>) -> Option<Raster>;

/// Why generated text could not be put out.
#[derive(Clone, Copy, Debug, PartialEq, Eq, Structural)]
pub enum OutputError {
    /// The text is not base64.
    InvalidBase64,
    /// The bytes are no image that can be decoded.
    InvalidImage,
    /// The decoded samples do not fill the decoded size.
    MalformedPixels,
    /// Typing or pasting failed in the application.
    SinkFailed,
}

/// The picture that `text` holds: the text is trimmed, read as base64,
/// and the bytes are read as an image.
pub open spec fn picture_of(text: Seq<char>) -> Result<Raster, OutputError> {
    match base64_decoded(trimmed(text)) {
        None => Err(OutputError::InvalidBase64),
        Some(bytes) => picture_in(bytes),
    }
}

/// The picture that the bytes of an encoded image hold.
pub open spec fn picture_in(bytes: Seq<u8>) -> Result<Raster, OutputError> {
    match rgba_decoded(bytes) {
        None => Err(OutputError::InvalidImage),
        Some(raster) => checked_raster(raster),
    }
}

/// `raster`, if its samples fill its size.
pub open spec fn checked_raster(raster: Raster) -> Result<Raster, OutputError> {
    if raster.wf() {
        Ok(raster)
    } else {
        Err(OutputError::MalformedPixels)
    }
}

/// Trusted: calls `base64::decode`, which reads standard base64 with
/// padding. The contract only gives the outcome its name,
/// [`base64_decoded`]: the bytes on success, `None` for each error.
#[verifier::external_body]
#[allow(deprecated)]
fn decode_base64(text: &str) -> (outcome: Result<Vec<u8>, base64::DecodeError>)
    ensures
        match outcome {
            Ok(bytes) => base64_decoded(text@) == Some(bytes@),
            Err(_) => base64_decoded(text@) is None,
        },
{
    base64::decode(text)
}

/// Trusted: calls `image::load_from_memory`, which guesses the format of
/// the bytes and decodes them, and `DynamicImage::into_rgba8` on the image.
/// The contract only gives the outcome its name, [`rgba_decoded`]: width,
/// height and the samples on success, `None` for each error.
#[verifier::external_body]
fn load_rgba(bytes: &[u8]) -> (outcome: Result<(usize, usize, Vec<u8>), image::ImageError>)
    ensures
        match outcome {
            Ok(loaded) => rgba_decoded(bytes@) == Some(
                Raster { width: loaded.0 as nat, height: loaded.1 as nat, pixels: loaded.2@ },
            ),
            Err(_) => rgba_decoded(bytes@) is None,
        },
{
    let rgba = image::load_from_memory(bytes)?.into_rgba8();
    Ok((rgba.width() as usize, rgba.height() as usize, rgba.into_raw()))
}

/// Rows of RGBA pixels, four bytes for each pixel.
#[derive(Debug, PartialEq, Eq)]
pub struct Picture {
    width: usize,
    height: usize,
    pixels: Vec<u8>,
}

impl View for Picture {
    type V = Raster;

    closed spec fn view(&self) -> Raster {
        Raster { width: self.width as nat, height: self.height as nat, pixels: self.pixels@ }
    }
}

impl Picture {
    #[verifier::type_invariant]
    spec fn inv(self) -> bool {
        self@.wf()
    }

    /// The picture of this size and these samples, if there are four
    /// samples for each pixel.
    pub fn from_rgba(width: usize, height: usize, pixels: Vec<u8>) -> (outcome: Result<
        Picture,
        OutputError,
    >)
        ensures
            match outcome {
                Ok(picture) => checked_raster(
                    Raster { width: width as nat, height: height as nat, pixels: pixels@ },
                ) == Ok::<Raster, OutputError>(picture@),
                Err(error) => checked_raster(
                    Raster { width: width as nat, height: height as nat, pixels: pixels@ },
                ) == Err::<Raster, OutputError>(error),
            },
    {
        let count = pixels.len();
        let fills = match width.checked_mul(height) {
            Some(area) => match area.checked_mul(4) {
                Some(samples) => samples == count,
                None => false,
            },
            None => false,
        };
        assert(fills == (count == 4 * width * height)) by (nonlinear_arith)
            requires
                fills == (width * height <= usize::MAX && width * height * 4 <= usize::MAX
                    && width * height * 4 == count),
                count <= usize::MAX,
                0 <= width,
                0 <= height,
        ;
        if fills {
            Ok(Picture { width, height, pixels })
        } else {
            Err(OutputError::MalformedPixels)
        }
    }

    /// Number of pixels in a row.
    pub fn width(&self) -> (width: usize)
        ensures
            width == self@.width,
    {
        self.width
    }

    /// Number of rows.
    pub fn height(&self) -> (height: usize)
        ensures
            height == self@.height,
    {
        self.height
    }

    /// The samples, row after row, four for each pixel.
    pub fn pixels(&self) -> (pixels: &Vec<u8>)
        ensures
            pixels@ == self@.pixels,
            self@.wf(),
    {
        proof {
            use_type_invariant(self);
        }
        &self.pixels
    }
}

/// Reads the bytes of an encoded image as a picture.
pub fn picture_from_bytes(bytes: &[u8]) -> (outcome: Result<Picture, OutputError>)
    ensures
        match outcome {
            Ok(picture) => picture_in(bytes@) == Ok::<Raster, OutputError>(picture@),
            Err(error) => picture_in(bytes@) == Err::<Raster, OutputError>(error),
        },
{
    match load_rgba(bytes) {
        Ok(loaded) => Picture::from_rgba(loaded.0, loaded.1, loaded.2),
        Err(_) => Err(OutputError::InvalidImage),
    }
}

/// Reads `text` as a picture: the text is trimmed, read as base64, and the
/// bytes are read as an image.
pub fn decode_picture(text: &str) -> (outcome: Result<Picture, OutputError>)
    ensures
        match outcome {
            Ok(picture) => picture_of(text@) == Ok::<Raster, OutputError>(picture@),
            Err(error) => picture_of(text@) == Err::<Raster, OutputError>(error),
        },
{
    let encoded = trim(text);
    match decode_base64(encoded.as_str()) {
        Ok(bytes) => picture_from_bytes(bytes.as_slice()),
        Err(_) => Err(OutputError::InvalidBase64),
    }
}

} // verus!
