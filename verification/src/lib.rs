//! Portable clipboard content negotiation: a canonical content-type model,
//! its mapping onto the pasteboard's native format identifiers, and the
//! multi-format read and write protocols built on both.
//!
//! A [`Clipboard`] holds the representations of the clipboard's current
//! item as plain values. Whoever talks to the platform reads them from it
//! before a query and writes them back after a change; every decision in
//! between is made here, and is proved to be the one its contract states.
//!
//! - [`common`]: content types, payloads, images and errors.
//! - [`mapping`]: mapping tables between native identifiers and content
//!   types, with their invariant.
//! - [`text`] and [`codec`]: text as UTF-8 and images as TIFF files.
//! - [`baseline`]: the TIFF files that the codec is given to read.
//! - [`content_map`]: the argument of a multi-format write.
//! - [`osx_clipboard`]: the pasteboard's table and the clipboard
//!   operations over a pasteboard item.
//! - [`laws`]: what holds of all of these together.

pub mod baseline;
pub mod codec;
pub mod common;
pub mod content_map;
pub mod laws;
pub mod mapping;
pub mod osx_clipboard;
pub mod text;

pub use crate::common::{ContentType, Error, GetContentResult, ImageData};
pub use crate::content_map::ContentMap;

use crate::codec::{fit_to_encode, image_in};
use crate::common::{ImageReading, Payload};
use crate::osx_clipboard::{
    canonical_type, identifiers, image_of, image_offer, native_identifiers, negotiate,
    offers_of, text_of, text_offer, OSXClipboardContext, TIFF_ID,
};
use vstd::prelude::*;

verus! {

/// The clipboard as applications see it.
///
/// The clipboard holds one item in any number of representations, for
/// instance a selection as HTML and as plain text. Reads take content types
/// and return the native identifier that matched, because turning an
/// identifier into a content type can lose detail; `normalize_content_type`
/// makes that conversion when it is wanted.
pub struct Clipboard {
    pub(crate) platform: OSXClipboardContext,
}

impl View for Clipboard {
    type V = Seq<Payload>;

    /// The representations currently held, in the platform's order.
    closed spec fn view(&self) -> Seq<Payload> {
        self.platform@
    }
}

impl Clipboard {
    /// Creates an instance of the clipboard. What the clipboard holds at
    /// that moment is for the platform to say: see `holding`.
    pub fn new() -> (r: Result<Clipboard, Error>)
        ensures
            r is Ok,
    {
        match OSXClipboardContext::new() {
            Ok(platform) => Ok(Clipboard { platform }),
            Err(e) => Err(e),
        }
    }

    /// A clipboard that holds `items`, as read from the platform.
    pub fn holding(items: Vec<GetContentResult>) -> (r: Clipboard)
        ensures
            r@ == items.deep_view(),
    {
        Clipboard { platform: OSXClipboardContext::holding(items) }
    }

    /// The representations held, for handing to the platform.
    pub fn contents(&self) -> (r: &Vec<GetContentResult>)
        ensures
            r.deep_view() == self@,
    {
        self.platform.contents()
    }

    /// Fetches UTF-8 text from the clipboard: its first text
    /// representation, decoded. Fails with `ContentNotAvailable` where
    /// there is none or where it is not UTF-8.
    pub fn get_text(&mut self) -> (r: Result<String, Error>)
        ensures
            final(self)@ == old(self)@,
            match text_of(old(self)@) {
                Some(text) => r is Ok && r->Ok_0@ == text,
                None => r is Err && r->Err_0 is ContentNotAvailable,
            },
    {
        self.platform.get_text()
    }

    /// Places `text` on the clipboard as its only representation.
    pub fn set_text(&mut self, text: String) -> (r: Result<(), Error>)
        ensures
            r is Ok,
            final(self)@ == seq![text_offer(text@)],
    {
        self.platform.set_text(text)
    }

    /// Fetches an image from the clipboard and returns its pixels. Images
    /// are read from TIFF files. Fails with `ContentNotAvailable` where no
    /// image is held, and with `ConversionFailure` where the one held does
    /// not decode: a TIFF file that is refused, or an image that is held
    /// as a PNG file only.
    pub fn get_image(&mut self) -> (r: Result<ImageData, Error>)
        ensures
            final(self)@ == old(self)@,
            match image_of(old(self)@) {
                ImageReading::Image(image) => r is Ok && r->Ok_0@ == image,
                ImageReading::Undecodable => r is Err && r->Err_0 is ConversionFailure,
                ImageReading::Absent => r is Err && r->Err_0 is ContentNotAvailable,
            },
    {
        self.platform.get_image()
    }

    /// Places `image` on the clipboard as its only representation: a file
    /// that holds the image. An image that is not fit to be encoded, or that the
    /// encoder gives up on, fails with `ConversionFailure` and leaves the
    /// clipboard as it was.
    pub fn set_image(&mut self, image: ImageData) -> (r: Result<(), Error>)
        ensures
            !fit_to_encode(image@) ==> r is Err,
            match r {
                Ok(_) => final(self)@.len() == 1 && final(self)@[0].content_type == TIFF_ID@
                    && image_in(final(self)@[0].data) == Some(image@),
                Err(e) => e is ConversionFailure && final(self)@ == old(self)@,
            },
    {
        self.platform.set_image(image)
    }

    /// Places an image that is encoded already on the clipboard as its
    /// only representation.
    pub fn set_image_file(&mut self, file: Vec<u8>) -> (r: Result<(), Error>)
        ensures
            r is Ok,
            final(self)@ == seq![image_offer(file@)],
    {
        self.platform.set_image_file(file)
    }

    /// Lists the native identifiers of the representations held, in order.
    /// An empty clipboard gives an empty list, never an error.
    pub fn get_content_types(&mut self) -> (r: Result<Vec<String>, Error>)
        ensures
            final(self)@ == old(self)@,
            r is Ok,
            r->Ok_0.deep_view() == identifiers(old(self)@),
    {
        self.platform.get_content_types()
    }

    /// Gets data in the desired format: tries each content type in `ct` in
    /// turn and returns the first for which the clipboard holds data, with
    /// the native identifier it was found under. Fails with
    /// `ContentNotAvailable` where it holds none of them.
    pub fn get_content_for_types(&mut self, ct: &[ContentType]) -> (r: Result<
        GetContentResult,
        Error,
    >)
        ensures
            final(self)@ == old(self)@,
            match negotiate(old(self)@, ct.deep_view()) {
                Some(payload) => r is Ok && r->Ok_0@ == payload,
                None => r is Err && r->Err_0 is ContentNotAvailable,
            },
    {
        self.platform.get_content_for_types(ct)
    }

    /// Replaces the contents of the clipboard by one representation for
    /// each entry of `map`. Nothing of what was held before remains.
    pub fn set_content_types(&mut self, map: ContentMap) -> (r: Result<(), Error>)
        ensures
            r is Ok,
            final(self)@ == offers_of(map@),
    {
        self.platform.set_content_types(map)
    }

    /// Normalizes a native identifier: the result is `Custom` only where
    /// no other content type stands for `s`.
    pub fn normalize_content_type(&self, s: String) -> (ct: ContentType)
        ensures
            ct@ == canonical_type(s@),
    {
        self.platform.normalize_content_type(s)
    }

    /// Denormalizes a content type into its native identifiers, most
    /// preferred first. The list is never empty; each of its strings can
    /// be carried in a `Custom` content type.
    pub fn denormalize_content_type(&self, ct: ContentType) -> (ids: Vec<String>)
        ensures
            ids.deep_view() == native_identifiers(ct@),
            ids.len() >= 1,
    {
        self.platform.denormalize_content_type(ct)
    }
}

} // verus!
