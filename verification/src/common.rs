//! The content model shared by every clipboard operation.

use vstd::prelude::*;

verus! {

/// Mathematical value of a [`ContentType`]: one of the well-known kinds, or a
/// native identifier carried verbatim.
pub enum CanonicalType {
    Text,
    Html,
    Rtf,
    Png,
    Pdf,
    Url,
    Custom(Seq<char>),
}

impl CanonicalType {
    /// True for every kind but `Custom`.
    pub open spec fn is_well_known(self) -> bool {
        !(self is Custom)
    }
}

/// A portable clipboard content kind.
///
/// `Custom` is the escape hatch for native formats that have no well-known
/// counterpart; it carries the native identifier unchanged.
#[derive(Debug, Hash)]
pub enum ContentType {
    Text,
    Html,
    Rtf,
    Png,
    Pdf,
    Url,
    Custom(String),
}

impl View for ContentType {
    type V = CanonicalType;

    open spec fn view(&self) -> CanonicalType {
        match self {
            ContentType::Text => CanonicalType::Text,
            ContentType::Html => CanonicalType::Html,
            ContentType::Rtf => CanonicalType::Rtf,
            ContentType::Png => CanonicalType::Png,
            ContentType::Pdf => CanonicalType::Pdf,
            ContentType::Url => CanonicalType::Url,
            ContentType::Custom(s) => CanonicalType::Custom(s@),
        }
    }
}

impl DeepView for ContentType {
    type V = CanonicalType;

    open spec fn deep_view(&self) -> CanonicalType {
        self@
    }
}

impl Clone for ContentType {
    fn clone(&self) -> (r: ContentType)
        ensures
            r == *self,
    {
        match self {
            ContentType::Text => ContentType::Text,
            ContentType::Html => ContentType::Html,
            ContentType::Rtf => ContentType::Rtf,
            ContentType::Png => ContentType::Png,
            ContentType::Pdf => ContentType::Pdf,
            ContentType::Url => ContentType::Url,
            ContentType::Custom(s) => ContentType::Custom(s.clone()),
        }
    }
}

impl PartialEq for ContentType {
    /// Two content types are equal when they are the same variant and, for
    /// `Custom`, carry the same identifier.
    fn eq(&self, other: &ContentType) -> (r: bool) {
        match (self, other) {
            (ContentType::Text, ContentType::Text) => true,
            (ContentType::Html, ContentType::Html) => true,
            (ContentType::Rtf, ContentType::Rtf) => true,
            (ContentType::Png, ContentType::Png) => true,
            (ContentType::Pdf, ContentType::Pdf) => true,
            (ContentType::Url, ContentType::Url) => true,
            (ContentType::Custom(a), ContentType::Custom(b)) => *a == *b,
            _ => false,
        }
    }
}

impl vstd::std_specs::cmp::PartialEqSpecImpl for ContentType {
    open spec fn obeys_eq_spec() -> bool {
        true
    }

    open spec fn eq_spec(&self, other: &ContentType) -> bool {
        self@ == other@
    }
}

impl Eq for ContentType {}

/// Why a clipboard operation did not produce a result.
#[derive(Debug)]
pub enum Error {
    /// Nothing on the clipboard satisfies the request.
    ContentNotAvailable,
    /// A representation exists, but its bytes could not be converted to or
    /// from the requested form.
    ConversionFailure,
    /// The platform declined to hand over the clipboard for writing.
    ClipboardOccupied,
    /// Any other failure of the platform, with a diagnostic for logs.
    Unknown { description: String },
}

impl Error {
    /// True of an `Unknown` error whose diagnostic reads `text`.
    pub open spec fn is_unknown_with(self, text: Seq<char>) -> bool {
        match self {
            Error::Unknown { description } => description@ == text,
            _ => false,
        }
    }
}

/// Mathematical value of an [`ImageData`].
pub struct Pixels {
    pub width: nat,
    pub height: nat,
    pub bytes: Seq<u8>,
}

impl Pixels {
    /// The buffer holds exactly four bytes for each pixel, row after row
    /// without padding.
    pub open spec fn well_formed(self) -> bool {
        self.bytes.len() == self.width * self.height * 4
    }
}

/// What reading an image from the clipboard comes to.
pub enum ImageReading {
    /// No representation holds an image.
    Absent,
    /// An image is held, but in no form that decodes here.
    Undecodable,
    /// The image that is held.
    Image(Pixels),
}

/// An image as a buffer of RGBA8 pixels, row-major, without row padding.
#[derive(Debug)]
pub struct ImageData {
    pub width: usize,
    pub height: usize,
    pub bytes: Vec<u8>,
}

impl View for ImageData {
    type V = Pixels;

    open spec fn view(&self) -> Pixels {
        Pixels { width: self.width as nat, height: self.height as nat, bytes: self.bytes@ }
    }
}

impl Clone for ImageData {
    fn clone(&self) -> (r: ImageData)
        ensures
            r@ == self@,
    {
        ImageData { width: self.width, height: self.height, bytes: self.bytes.clone() }
    }
}

/// Mathematical value of a [`GetContentResult`].
pub struct Payload {
    pub content_type: Seq<char>,
    pub data: Seq<u8>,
}

/// One representation of the clipboard item: raw bytes together with the
/// native identifier they are offered under.
#[derive(Debug)]
pub struct GetContentResult {
    pub content_type: String,
    pub data: Vec<u8>,
}

impl View for GetContentResult {
    type V = Payload;

    open spec fn view(&self) -> Payload {
        Payload { content_type: self.content_type@, data: self.data@ }
    }
}

impl DeepView for GetContentResult {
    type V = Payload;

    open spec fn deep_view(&self) -> Payload {
        self@
    }
}

impl Clone for GetContentResult {
    fn clone(&self) -> (r: GetContentResult)
        ensures
            r@ == self@,
    {
        GetContentResult { content_type: self.content_type.clone(), data: self.data.clone() }
    }
}

} // verus!
