//! Pixel images as TIFF files.
//!
//! Images cross the pasteboard as TIFF. The codec itself is the `image`
//! crate's. This module names what its decoder returns, and surrounds
//! each call with checks of its own: a file is held to the plain profile
//! before it is decoded, the buffer that comes back is held to the
//! dimensions that come with it, and a file that the encoder wrote is
//! read back and compared with the image before it is handed out.

use crate::baseline::{is_plain_tiff, plain_tiff, MAX_PIXELS};
use crate::common::{Error, ImageData, Pixels};
use crate::text::same_bytes;
use vstd::prelude::*;

verus! {

/// `image::ImageError`, the codec's error, carried through unopened.
#[verifier::external_type_specification]
#[verifier::external_body]
pub struct ExImageError(image::ImageError);

/// What the decoder makes of `bytes` read as a TIFF file: the width, the
/// height and the RGBA8 buffer of the picture, or nothing where it rejects
/// the bytes.
pub uninterp spec fn tiff_decoding(bytes: Seq<u8>) -> Option<(u32, u32, Seq<u8>)>;

/// Runs `image::io::Reader::decode` on `bytes` with the format fixed to
/// TIFF and hands the picture out as RGBA8, by `DynamicImage::into_rgba8`.
///
/// Trusted: that the outcome depends on `bytes` alone. Nothing is claimed
/// about which bytes decode, nor about the pixels that come out.
///
/// The decoder is only called on a file of the plain profile. On other
/// files it is known to stop short of returning: it multiplies the 64-bit
/// counts of a BigTIFF directory, copies what an embedded JPEG stream
/// holds into a buffer sized by the directory, slices JPEG tables of fewer
/// than two bytes, multiplies a sample depth by the number of channels in
/// eight bits, sets a buffer aside for an LZW strip of whatever length the
/// directory gives, and computes the number of strips, their size and the
/// size of the whole buffer from the sizes that the directory gives.
#[verifier::external_body]
fn decode_tiff(bytes: &[u8]) -> (r: Result<(u32, u32, Vec<u8>), image::ImageError>)
    requires
        plain_tiff(bytes@),
    ensures
        r is Ok <==> tiff_decoding(bytes@) is Some,
        r matches Ok(d) ==> tiff_decoding(bytes@) == Some((d.0, d.1, d.2@)),
{
    let reader = image::io::Reader::with_format(
        std::io::Cursor::new(bytes),
        image::ImageFormat::Tiff,
    );
    match reader.decode() {
        Ok(picture) => {
            let rgba = picture.into_rgba8();
            let (width, height) = rgba.dimensions();
            Ok((width, height, rgba.into_raw()))
        },
        Err(e) => Err(e),
    }
}

/// Runs `image::codecs::tiff::TiffEncoder::encode` on an RGBA8 buffer and
/// collects the file it writes.
///
/// Nothing is claimed of the outcome: the encoder writes in the byte order
/// of the machine, so the file is not a function of the arguments. What it
/// wrote is read back before it is used. The encoder divides by the byte
/// length of a row and slices the buffer row by row, so it is only called
/// with at least one column and a buffer of exactly four bytes per pixel.
#[verifier::external_body]
fn encode_tiff(width: u32, height: u32, pixels: &[u8]) -> (r: Result<Vec<u8>, image::ImageError>)
    requires
        width > 0,
        pixels@.len() == width * height * 4,
{
    let mut file = std::io::Cursor::new(Vec::new());
    let encoder = image::codecs::tiff::TiffEncoder::new(&mut file);
    match encoder.encode(pixels, width, height, image::ColorType::Rgba8) {
        Ok(()) => Ok(file.into_inner()),
        Err(e) => Err(e),
    }
}

/// The image that a TIFF file holds: what its decoding stands for, where
/// the file is of the plain profile.
pub open spec fn image_in(file: Seq<u8>) -> Option<Pixels> {
    if plain_tiff(file) {
        decoded_image(tiff_decoding(file))
    } else {
        None
    }
}

/// The image that a decoding stands for. A decoding whose buffer does not
/// hold four bytes for each pixel stands for none.
pub open spec fn decoded_image(decoding: Option<(u32, u32, Seq<u8>)>) -> Option<Pixels> {
    match decoding {
        Some((width, height, bytes)) => if bytes.len() == width * height * 4 {
            Some(Pixels { width: width as nat, height: height as nat, bytes })
        } else {
            None
        },
        None => None,
    }
}

/// An image is fit to be handed to the encoder when it has pixels, no
/// more of them than `MAX_PIXELS`, and a buffer that is well formed.
/// Whether it is encoded then is for the encoder to say.
pub open spec fn fit_to_encode(image: Pixels) -> bool {
    &&& 0 < image.width
    &&& 0 < image.height
    &&& image.width * image.height <= MAX_PIXELS
    &&& image.well_formed()
}

/// The decoder's verdict as seen by this library: `Ok` with its values, or
/// nothing for any error.
pub open spec fn decoding_of(outcome: Result<(u32, u32, Vec<u8>), image::ImageError>) -> Option<
    (u32, u32, Seq<u8>),
> {
    match outcome {
        Ok(d) => Some((d.0, d.1, d.2@)),
        Err(_) => None,
    }
}

/// Turns the decoder's outcome into an image, checking that the buffer it
/// returned matches the dimensions it reported.
pub fn image_from_decoding(outcome: Result<(u32, u32, Vec<u8>), image::ImageError>) -> (r: Result<
    ImageData,
    Error,
>)
    ensures
        match decoded_image(decoding_of(outcome)) {
            Some(image) => r is Ok && r->Ok_0@ == image,
            None => r is Err && r->Err_0 is ConversionFailure,
        },
{
    match outcome {
        Ok((width, height, bytes)) => {
            let expected: u128 = pixel_bytes(width, height);
            if bytes.len() as u128 == expected {
                Ok(ImageData { width: width as usize, height: height as usize, bytes })
            } else {
                Err(Error::ConversionFailure)
            }
        },
        Err(_) => Err(Error::ConversionFailure),
    }
}

/// The byte length of an RGBA8 buffer of the given dimensions.
fn pixel_bytes(width: u32, height: u32) -> (n: u128)
    ensures
        n == width * height * 4,
{
    assert(width * height <= 0xffff_ffff * 0xffff_ffff) by (nonlinear_arith)
        requires
            width <= 0xffff_ffff,
            height <= 0xffff_ffff,
    ;
    (width as u128) * (height as u128) * 4
}

/// Decodes a TIFF file into an image. Fails with `ConversionFailure`
/// where the file is not of the plain profile, where the decoder rejects
/// it, and where the decoder returns a buffer that does not fit the
/// dimensions.
pub fn decode_image(file: &[u8]) -> (r: Result<ImageData, Error>)
    ensures
        match image_in(file@) {
            Some(image) => r is Ok && r->Ok_0@ == image,
            None => r is Err && r->Err_0 is ConversionFailure,
        },
{
    if is_plain_tiff(file) {
        image_from_decoding(decode_tiff(file))
    } else {
        Err(Error::ConversionFailure)
    }
}

/// Turns the encoder's outcome into the file or a conversion failure.
pub fn file_from_encoding(outcome: Result<Vec<u8>, image::ImageError>) -> (r: Result<
    Vec<u8>,
    Error,
>)
    ensures
        match outcome {
            Ok(file) => r == Ok::<Vec<u8>, Error>(file),
            Err(_) => r is Err && r->Err_0 is ConversionFailure,
        },
{
    match outcome {
        Ok(file) => Ok(file),
        Err(_) => Err(Error::ConversionFailure),
    }
}

/// Turns the encoder's outcome into a file that holds `image`: the file is
/// read back, and handed out only where it decodes to the image.
pub fn checked_file(outcome: Result<Vec<u8>, image::ImageError>, image: &ImageData) -> (r: Result<
    Vec<u8>,
    Error,
>)
    ensures
        match outcome {
            Ok(file) => if image_in(file@) == Some(image@) {
                r == Ok::<Vec<u8>, Error>(file)
            } else {
                r is Err && r->Err_0 is ConversionFailure
            },
            Err(_) => r is Err && r->Err_0 is ConversionFailure,
        },
{
    match file_from_encoding(outcome) {
        Ok(file) => if file_holds(file.as_slice(), image) {
            Ok(file)
        } else {
            Err(Error::ConversionFailure)
        },
        Err(_) => Err(Error::ConversionFailure),
    }
}

/// Tells whether `file` holds `image`, by decoding it.
pub fn file_holds(file: &[u8], image: &ImageData) -> (r: bool)
    ensures
        r == (image_in(file@) == Some(image@)),
{
    match decode_image(file) {
        Ok(held) => held.width == image.width && held.height == image.height && same_bytes(
            held.bytes.as_slice(),
            image.bytes.as_slice(),
        ),
        Err(_) => false,
    }
}

/// Encodes an image as a TIFF file that holds it. An image that is not
/// fit to be encoded fails with `ConversionFailure`; so does one that the encoder
/// gives up on, or whose file does not read back as the image.
pub fn encode_image(image: &ImageData) -> (r: Result<Vec<u8>, Error>)
    ensures
        !fit_to_encode(image@) ==> r is Err,
        r matches Ok(file) ==> image_in(file@) == Some(image@),
        r is Err ==> r->Err_0 is ConversionFailure,
{
    if image.width == 0 || image.height == 0 || image.width > 0xffff_ffff || image.height
        > 0xffff_ffff {
        return Err(Error::ConversionFailure);
    }
    let width: u32 = image.width as u32;
    let height: u32 = image.height as u32;
    let expected = pixel_bytes(width, height);
    if expected > 4 * (MAX_PIXELS as u128) || image.bytes.len() as u128 != expected {
        return Err(Error::ConversionFailure);
    }
    checked_file(encode_tiff(width, height, image.bytes.as_slice()), image)
}

} // verus!
