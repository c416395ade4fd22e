//! The pasteboard's conventions: its native format identifiers, its
//! mapping table, and the operations of the clipboard expressed over the
//! representations of the pasteboard's current item.

use crate::codec::{decode_image, encode_image, fit_to_encode, image_in};
use crate::common::{
    CanonicalType, ContentType, Error, GetContentResult, ImageData, ImageReading, Payload,
};
use crate::content_map::{entries_view, ContentMap};
use crate::mapping::{
    canonical_in, entry_decides_its_identifier, identifiers_for, identifiers_in, knows,
    well_formed, Association, MappingTable, Pairing,
};
use crate::text::{decode_text, decoded_text, encode_text, same_text};
use vstd::prelude::*;
use vstd::utf8::*;

verus! {

/// Native identifier of plain UTF-8 text.
pub const TEXT_ID: &'static str = "public.utf8-plain-text";

/// Native identifier of HTML markup.
pub const HTML_ID: &'static str = "public.html";

/// Native identifier of rich text.
pub const RTF_ID: &'static str = "public.rtf";

/// Native identifier of a PNG image file.
pub const PNG_ID: &'static str = "public.png";

/// Native identifier of a PDF document.
pub const PDF_ID: &'static str = "com.adobe.pdf";

/// Native identifier of a file URL.
pub const URL_ID: &'static str = "public.file-url";

/// Native identifier under which pixel images travel.
pub const TIFF_ID: &'static str = "public.tiff";

/// The pasteboard's mapping table. Every well-known type has a single
/// native identifier here.
pub open spec fn pasteboard_pairs() -> Seq<Pairing> {
    seq![
        Pairing { native: URL_ID@, canonical: CanonicalType::Url },
        Pairing { native: HTML_ID@, canonical: CanonicalType::Html },
        Pairing { native: PDF_ID@, canonical: CanonicalType::Pdf },
        Pairing { native: PNG_ID@, canonical: CanonicalType::Png },
        Pairing { native: RTF_ID@, canonical: CanonicalType::Rtf },
        Pairing { native: TEXT_ID@, canonical: CanonicalType::Text },
    ]
}

/// True when `id` is one of the identifiers the mapping table knows.
pub open spec fn in_table(id: Seq<char>) -> bool {
    knows(pasteboard_pairs(), id)
}

/// The canonical type that a native identifier stands for: its table entry,
/// or `Custom` around the identifier itself when the table has none.
pub open spec fn canonical_type(id: Seq<char>) -> CanonicalType {
    canonical_in(pasteboard_pairs(), id)
}

/// The native identifiers of a canonical type, most preferred first.
pub open spec fn native_identifiers(ct: CanonicalType) -> Seq<Seq<char>> {
    identifiers_in(pasteboard_pairs(), ct)
}

/// The identifier a canonical type is written under: the first of its
/// native identifiers.
pub open spec fn preferred_identifier(ct: CanonicalType) -> Seq<char> {
    native_identifiers(ct)[0]
}

/// The identifiers that the pasteboard uses differ from one another.
pub proof fn identifiers_differ()
    ensures
        TEXT_ID@ != HTML_ID@,
        TEXT_ID@ != RTF_ID@,
        TEXT_ID@ != PNG_ID@,
        TEXT_ID@ != PDF_ID@,
        TEXT_ID@ != URL_ID@,
        TEXT_ID@ != TIFF_ID@,
        HTML_ID@ != RTF_ID@,
        HTML_ID@ != PNG_ID@,
        HTML_ID@ != PDF_ID@,
        HTML_ID@ != URL_ID@,
        HTML_ID@ != TIFF_ID@,
        RTF_ID@ != PNG_ID@,
        RTF_ID@ != PDF_ID@,
        RTF_ID@ != URL_ID@,
        RTF_ID@ != TIFF_ID@,
        PNG_ID@ != PDF_ID@,
        PNG_ID@ != URL_ID@,
        PNG_ID@ != TIFF_ID@,
        PDF_ID@ != URL_ID@,
        PDF_ID@ != TIFF_ID@,
        URL_ID@ != TIFF_ID@,
{
    reveal_strlit("public.utf8-plain-text");
    reveal_strlit("public.html");
    reveal_strlit("public.rtf");
    reveal_strlit("public.png");
    reveal_strlit("com.adobe.pdf");
    reveal_strlit("public.file-url");
    reveal_strlit("public.tiff");
    assert(TEXT_ID@.len() == 22);
    assert(HTML_ID@.len() == 11);
    assert(RTF_ID@.len() == 10);
    assert(PNG_ID@.len() == 10);
    assert(PDF_ID@.len() == 13);
    assert(URL_ID@.len() == 15);
    assert(TIFF_ID@.len() == 11);
    assert(RTF_ID@[7] != PNG_ID@[7]);
    assert(HTML_ID@[7] != TIFF_ID@[7]);
}

/// The pasteboard's table keeps the invariant of mapping tables.
pub proof fn pasteboard_table_is_well_formed()
    ensures
        well_formed(pasteboard_pairs()),
{
    identifiers_differ();
}

/// What the pasteboard's table says, entry by entry: each well-known type
/// has one identifier, which normalizes to it, and the identifier of
/// images is not in the table.
pub proof fn pasteboard_table_entries()
    ensures
        native_identifiers(CanonicalType::Text) == seq![TEXT_ID@],
        native_identifiers(CanonicalType::Html) == seq![HTML_ID@],
        native_identifiers(CanonicalType::Rtf) == seq![RTF_ID@],
        native_identifiers(CanonicalType::Png) == seq![PNG_ID@],
        native_identifiers(CanonicalType::Pdf) == seq![PDF_ID@],
        native_identifiers(CanonicalType::Url) == seq![URL_ID@],
        canonical_type(TEXT_ID@) == CanonicalType::Text,
        canonical_type(HTML_ID@) == CanonicalType::Html,
        canonical_type(RTF_ID@) == CanonicalType::Rtf,
        canonical_type(PNG_ID@) == CanonicalType::Png,
        canonical_type(PDF_ID@) == CanonicalType::Pdf,
        canonical_type(URL_ID@) == CanonicalType::Url,
        !in_table(TIFF_ID@),
{
    identifiers_differ();
    pasteboard_table_is_well_formed();
    let table = pasteboard_pairs();
    entry_decides_its_identifier(table, 0);
    entry_decides_its_identifier(table, 1);
    entry_decides_its_identifier(table, 2);
    entry_decides_its_identifier(table, 3);
    entry_decides_its_identifier(table, 4);
    entry_decides_its_identifier(table, 5);
    // The listing of a type is built entry by entry, from the first.
    let t5 = table.drop_last();
    let t4 = t5.drop_last();
    let t3 = t4.drop_last();
    let t2 = t3.drop_last();
    let t1 = t2.drop_last();
    let t0 = t1.drop_last();
    assert forall|ct: CanonicalType| ct.is_well_known() implies #[trigger] identifiers_for(
        table,
        ct,
    ) =~= seq![preferred_of(ct)] by {
        assert(identifiers_for(t0, ct) =~= Seq::<Seq<char>>::empty());
        assert(identifiers_for(t1, ct).len() <= 1);
        assert(identifiers_for(t2, ct).len() <= 1);
        assert(identifiers_for(t3, ct).len() <= 1);
        assert(identifiers_for(t4, ct).len() <= 1);
        assert(identifiers_for(t5, ct).len() <= 1);
    }
}

/// The identifier that the pasteboard's table lists for a well-known type.
spec fn preferred_of(ct: CanonicalType) -> Seq<char> {
    match ct {
        CanonicalType::Text => TEXT_ID@,
        CanonicalType::Html => HTML_ID@,
        CanonicalType::Rtf => RTF_ID@,
        CanonicalType::Png => PNG_ID@,
        CanonicalType::Pdf => PDF_ID@,
        CanonicalType::Url => URL_ID@,
        CanonicalType::Custom(id) => id,
    }
}

/// Builds the pasteboard's mapping table.
pub fn pasteboard_table() -> (table: MappingTable)
    ensures
        table@ == pasteboard_pairs(),
{
    let mut entries: Vec<Association> = Vec::new();
    entries.push(Association { native: URL_ID.to_owned(), canonical: ContentType::Url });
    entries.push(Association { native: HTML_ID.to_owned(), canonical: ContentType::Html });
    entries.push(Association { native: PDF_ID.to_owned(), canonical: ContentType::Pdf });
    entries.push(Association { native: PNG_ID.to_owned(), canonical: ContentType::Png });
    entries.push(Association { native: RTF_ID.to_owned(), canonical: ContentType::Rtf });
    entries.push(Association { native: TEXT_ID.to_owned(), canonical: ContentType::Text });
    proof {
        assert(entries.deep_view() =~= pasteboard_pairs());
        pasteboard_table_is_well_formed();
    }
    MappingTable::new(entries).unwrap()
}

/// The first payload that `offers` holds under `id`.
pub open spec fn find_offer(offers: Seq<Payload>, id: Seq<char>) -> Option<Payload>
    decreases offers.len(),
{
    if offers.len() == 0 {
        None
    } else if offers[0].content_type == id {
        Some(offers[0])
    } else {
        find_offer(offers.drop_first(), id)
    }
}

/// The payload under the first of `ids` that `offers` holds at all.
pub open spec fn first_offered(offers: Seq<Payload>, ids: Seq<Seq<char>>) -> Option<Payload>
    decreases ids.len(),
{
    if ids.len() == 0 {
        None
    } else {
        match find_offer(offers, ids[0]) {
            Some(payload) => Some(payload),
            None => first_offered(offers, ids.drop_first()),
        }
    }
}

/// The outcome of content negotiation: the payload of the first canonical
/// type in `priority` that `offers` holds under any of its native
/// identifiers, those tried in the table's order of preference.
pub open spec fn negotiate(offers: Seq<Payload>, priority: Seq<CanonicalType>) -> Option<Payload>
    decreases priority.len(),
{
    if priority.len() == 0 {
        None
    } else {
        match first_offered(offers, native_identifiers(priority[0])) {
            Some(payload) => Some(payload),
            None => negotiate(offers, priority.drop_first()),
        }
    }
}

/// The native identifiers of `offers`, in order.
pub open spec fn identifiers(offers: Seq<Payload>) -> Seq<Seq<char>> {
    Seq::new(offers.len(), |i: int| offers[i].content_type)
}

/// The text that `offers` hold: the first text payload, decoded. Offers
/// whose first text payload is not UTF-8 hold none.
pub open spec fn text_of(offers: Seq<Payload>) -> Option<Seq<char>> {
    match first_offered(offers, native_identifiers(CanonicalType::Text)) {
        Some(payload) => decoded_text(payload.data),
        None => None,
    }
}

/// The single offer that a text is written as: its UTF-8 encoding under
/// the preferred identifier of text.
pub open spec fn text_offer(text: Seq<char>) -> Payload {
    Payload { content_type: preferred_identifier(CanonicalType::Text), data: encode_utf8(text) }
}

/// The image that `offers` hold. Images are read from TIFF files: the
/// first of them decides. Offers that hold an image as a PNG file only
/// hold one that does not decode here.
pub open spec fn image_of(offers: Seq<Payload>) -> ImageReading {
    match find_offer(offers, TIFF_ID@) {
        Some(payload) => match image_in(payload.data) {
            Some(image) => ImageReading::Image(image),
            None => ImageReading::Undecodable,
        },
        None => if find_offer(offers, PNG_ID@) is Some {
            ImageReading::Undecodable
        } else {
            ImageReading::Absent
        },
    }
}

/// The single offer that the file of an image is written as.
pub open spec fn image_offer(file: Seq<u8>) -> Payload {
    Payload { content_type: TIFF_ID@, data: file }
}

/// The offers that the entries of a multi-format write become: one for
/// each entry, in order, under the preferred identifier of its type.
pub open spec fn offers_of(entries: Seq<(CanonicalType, Seq<u8>)>) -> Seq<Payload> {
    Seq::new(
        entries.len(),
        |i: int| Payload { content_type: preferred_identifier(entries[i].0), data: entries[i].1 },
    )
}

/// A write that the platform may turn down.
pub enum WriteKind {
    Text,
    Image,
    ContentTypes,
}

/// The clipboard as the pasteboard presents it: the representations of its
/// current item, each a payload under a native identifier.
pub struct OSXClipboardContext {
    table: MappingTable,
    items: Vec<GetContentResult>,
}

impl View for OSXClipboardContext {
    type V = Seq<Payload>;

    /// The offers currently held, in the order the platform reports them.
    closed spec fn view(&self) -> Seq<Payload> {
        self.items.deep_view()
    }
}

impl OSXClipboardContext {
    #[verifier::type_invariant]
    spec fn uses_the_pasteboard_table(&self) -> bool {
        self.table@ == pasteboard_pairs()
    }

    /// A context for the pasteboard. What the pasteboard holds when it is
    /// opened is for the platform to say: see `holding`.
    pub fn new() -> (r: Result<OSXClipboardContext, Error>)
        ensures
            r is Ok,
    {
        Ok(OSXClipboardContext { table: pasteboard_table(), items: Vec::new() })
    }

    /// A context that holds `items`, as read from the platform.
    pub fn holding(items: Vec<GetContentResult>) -> (r: OSXClipboardContext)
        ensures
            r@ == items.deep_view(),
    {
        OSXClipboardContext { table: pasteboard_table(), items }
    }

    /// The representations held, for handing to the platform.
    pub fn contents(&self) -> (r: &Vec<GetContentResult>)
        ensures
            r.deep_view() == self@,
    {
        &self.items
    }

    /// What opening the pasteboard amounts to, given whether the platform
    /// knows the pasteboard class and whether it handed out the general
    /// pasteboard.
    pub fn open_status(class_found: bool, pasteboard_found: bool) -> (r: Result<(), Error>)
        ensures
            r is Ok <==> class_found && pasteboard_found,
            !class_found ==> r is Err && r->Err_0.is_unknown_with(
                "Class::get(\"NSPasteboard\")"@,
            ),
            class_found && !pasteboard_found ==> r is Err && r->Err_0.is_unknown_with(
                "NSPasteboard#generalPasteboard returned null"@,
            ),
    {
        if !class_found {
            Err(Error::Unknown { description: "Class::get(\"NSPasteboard\")".to_owned() })
        } else if !pasteboard_found {
            Err(
                Error::Unknown {
                    description: "NSPasteboard#generalPasteboard returned null".to_owned(),
                },
            )
        } else {
            Ok(())
        }
    }

    /// What a write amounts to, given whether the platform accepted it. A
    /// refused multi-format write means that the clipboard is occupied; a
    /// refused text or image is reported with a diagnostic.
    pub fn write_status(write: WriteKind, accepted: bool) -> (r: Result<(), Error>)
        ensures
            r is Ok <==> accepted,
            !accepted ==> match write {
                WriteKind::Text => r is Err && r->Err_0.is_unknown_with(
                    "NSPasteboard#writeObjects: returned false"@,
                ),
                WriteKind::Image => r is Err && r->Err_0.is_unknown_with(
                    "Failed to write the image to the pasteboard (`writeObjects` returned NO)."@,
                ),
                WriteKind::ContentTypes => r is Err && r->Err_0 is ClipboardOccupied,
            },
    {
        if accepted {
            return Ok(());
        }
        match write {
            WriteKind::Text => Err(
                Error::Unknown {
                    description: "NSPasteboard#writeObjects: returned false".to_owned(),
                },
            ),
            WriteKind::Image => Err(
                Error::Unknown {
                    description: "Failed to write the image to the pasteboard (`writeObjects` returned NO).".to_owned(),
                },
            ),
            WriteKind::ContentTypes => Err(Error::ClipboardOccupied),
        }
    }

    /// Where the first representation under `id` stands.
    fn position(&self, id: &str) -> (r: Option<usize>)
        ensures
            match r {
                Some(j) => j < self.items.len() && find_offer(self@, id@) == Some(self@[j as int]),
                None => find_offer(self@, id@) is None,
            },
    {
        let mut j: usize = 0;
        assert(self@.skip(0) =~= self@);
        while j < self.items.len()
            invariant
                j <= self.items.len(),
                find_offer(self@, id@) == find_offer(self@.skip(j as int), id@),
            decreases self.items.len() - j,
        {
            assert(self@.skip(j as int).drop_first() =~= self@.skip(j + 1));
            if same_text(self.items[j].content_type.as_str(), id) {
                return Some(j);
            }
            j += 1;
        }
        None
    }

    /// Where the representation under the first of `ids` that is held at
    /// all stands.
    fn first_position(&self, ids: &Vec<String>) -> (r: Option<usize>)
        ensures
            match r {
                Some(j) => j < self.items.len() && first_offered(self@, ids.deep_view()) == Some(
                    self@[j as int],
                ),
                None => first_offered(self@, ids.deep_view()) is None,
            },
    {
        let mut k: usize = 0;
        assert(ids.deep_view().skip(0) =~= ids.deep_view());
        while k < ids.len()
            invariant
                k <= ids.len(),
                first_offered(self@, ids.deep_view()) == first_offered(
                    self@,
                    ids.deep_view().skip(k as int),
                ),
            decreases ids.len() - k,
        {
            assert(ids.deep_view().skip(k as int).drop_first() =~= ids.deep_view().skip(k + 1));
            match self.position(ids[k].as_str()) {
                Some(j) => {
                    return Some(j);
                },
                None => {},
            }
            k += 1;
        }
        None
    }

    /// The text on the clipboard: the first text representation, which must
    /// be UTF-8.
    pub fn get_text(&mut self) -> (r: Result<String, Error>)
        ensures
            final(self)@ == old(self)@,
            match text_of(old(self)@) {
                Some(text) => r is Ok && r->Ok_0@ == text,
                None => r is Err && r->Err_0 is ContentNotAvailable,
            },
    {
        let ids = self.denormalize_content_type(ContentType::Text);
        match self.first_position(&ids) {
            Some(j) => match decode_text(self.items[j].data.as_slice()) {
                Some(text) => Ok(text),
                None => Err(Error::ContentNotAvailable),
            },
            None => Err(Error::ContentNotAvailable),
        }
    }

    /// Replaces whatever is held by `data` as a single text representation.
    pub fn set_text(&mut self, data: String) -> (r: Result<(), Error>)
        ensures
            r is Ok,
            final(self)@ == seq![text_offer(data@)],
    {
        let offer = GetContentResult {
            content_type: self.denormalize_ct_single(ContentType::Text),
            data: encode_text(data.as_str()),
        };
        let mut items: Vec<GetContentResult> = Vec::new();
        items.push(offer);
        proof {
            use_type_invariant(&*self);
        }
        self.items = items;
        Ok(())
    }

    /// The image on the clipboard: the first TIFF representation, decoded.
    /// Fails with `ContentNotAvailable` where no image is held, and with
    /// `ConversionFailure` where the one held does not decode: a TIFF file
    /// that is refused, or an image that is held as a PNG file only.
    pub fn get_image(&mut self) -> (r: Result<ImageData, Error>)
        ensures
            final(self)@ == old(self)@,
            match image_of(old(self)@) {
                ImageReading::Image(image) => r is Ok && r->Ok_0@ == image,
                ImageReading::Undecodable => r is Err && r->Err_0 is ConversionFailure,
                ImageReading::Absent => r is Err && r->Err_0 is ContentNotAvailable,
            },
    {
        match self.position(TIFF_ID) {
            Some(j) => decode_image(self.items[j].data.as_slice()),
            None => match self.position(PNG_ID) {
                Some(_) => Err(Error::ConversionFailure),
                None => Err(Error::ContentNotAvailable),
            },
        }
    }

    /// Replaces whatever is held by `data` as a single image
    /// representation: a file that holds the image. An image that is not
    /// fit to be encoded, or that the encoder gives up on, fails with
    /// `ConversionFailure` and leaves the contents as they were.
    pub fn set_image(&mut self, data: ImageData) -> (r: Result<(), Error>)
        ensures
            !fit_to_encode(data@) ==> r is Err,
            match r {
                Ok(_) => final(self)@.len() == 1 && final(self)@[0].content_type == TIFF_ID@
                    && image_in(final(self)@[0].data) == Some(data@),
                Err(e) => e is ConversionFailure && final(self)@ == old(self)@,
            },
    {
        match encode_image(&data) {
            Ok(file) => self.set_image_file(file),
            Err(_) => Err(Error::ConversionFailure),
        }
    }

    /// Replaces whatever is held by an image that is encoded already, as a
    /// single image representation.
    pub fn set_image_file(&mut self, file: Vec<u8>) -> (r: Result<(), Error>)
        ensures
            r is Ok,
            final(self)@ == seq![image_offer(file@)],
    {
        let offer = GetContentResult { content_type: TIFF_ID.to_owned(), data: file };
        let mut items: Vec<GetContentResult> = Vec::new();
        items.push(offer);
        proof {
            use_type_invariant(&*self);
        }
        self.items = items;
        assert(self@ =~= seq![image_offer(file@)]);
        Ok(())
    }

    /// The native identifiers of everything held, in order. Never fails.
    pub fn get_content_types(&mut self) -> (r: Result<Vec<String>, Error>)
        ensures
            final(self)@ == old(self)@,
            r is Ok,
            r->Ok_0.deep_view() == identifiers(old(self)@),
    {
        let mut types: Vec<String> = Vec::new();
        let mut j: usize = 0;
        while j < self.items.len()
            invariant
                j <= self.items.len(),
                types.len() == j,
                forall|k: int| 0 <= k < j ==> (#[trigger] types[k])@ == self@[k].content_type,
            decreases self.items.len() - j,
        {
            types.push(self.items[j].content_type.clone());
            j += 1;
        }
        Ok(types)
    }

    /// Content negotiation: the first of the types in `ct`, tried in order
    /// and each under its native identifiers in order of preference, for
    /// which something is held. Returns the payload with the identifier it
    /// was found under, and `ContentNotAvailable` if nothing is held under
    /// any of them.
    pub fn get_content_for_types(&mut self, ct: &[ContentType]) -> (r: Result<
        GetContentResult,
        Error,
    >)
        ensures
            final(self)@ == old(self)@,
            match negotiate(old(self)@, ct.deep_view()) {
                Some(payload) => r is Ok && r->Ok_0@ == payload,
                None => r is Err && r->Err_0 is ContentNotAvailable,
            },
    {
        let mut i: usize = 0;
        assert(ct.deep_view().skip(0) =~= ct.deep_view());
        while i < ct.len()
            invariant
                i <= ct.len(),
                negotiate(self@, ct.deep_view()) == negotiate(self@, ct.deep_view().skip(i as int)),
            decreases ct.len() - i,
        {
            assert(ct.deep_view().skip(i as int).drop_first() =~= ct.deep_view().skip(i + 1));
            let ids = self.denormalize_content_type(ct[i].clone());
            match self.first_position(&ids) {
                Some(j) => {
                    return Ok(self.items[j].clone());
                },
                None => {},
            }
            i += 1;
        }
        Err(Error::ContentNotAvailable)
    }

    /// Replaces whatever is held by one representation for each entry of
    /// `map`, in the map's order, each under the preferred native
    /// identifier of its content type.
    pub fn set_content_types(&mut self, map: ContentMap) -> (r: Result<(), Error>)
        ensures
            r is Ok,
            final(self)@ == offers_of(map@),
    {
        let entries = map.into_entries();
        let mut items: Vec<GetContentResult> = Vec::new();
        let mut i: usize = 0;
        while i < entries.len()
            invariant
                i <= entries.len(),
                items.len() == i,
                forall|k: int|
                    0 <= k < i ==> (#[trigger] items[k])@ == offers_of(entries_view(entries@))[k],
            decreases entries.len() - i,
        {
            let content_type = self.denormalize_ct_single(entries[i].0.clone());
            let data = entries[i].1.clone();
            items.push(GetContentResult { content_type, data });
            i += 1;
        }
        proof {
            use_type_invariant(&*self);
        }
        self.items = items;
        Ok(())
    }

    /// The canonical type of a native identifier: its table entry, or
    /// `Custom` around the identifier where the table has none.
    pub fn normalize_content_type(&self, s: String) -> (ct: ContentType)
        ensures
            ct@ == canonical_type(s@),
    {
        proof {
            use_type_invariant(self);
        }
        self.table.normalize(s)
    }

    /// The identifier that a content type is written under.
    fn denormalize_ct_single(&self, ct: ContentType) -> (id: String)
        ensures
            id@ == preferred_identifier(ct@),
    {
        let mut ids = self.denormalize_content_type(ct);
        ids.swap_remove(0)
    }

    /// The native identifiers of a content type, most preferred first. The
    /// list is never empty.
    pub fn denormalize_content_type(&self, ct: ContentType) -> (ids: Vec<String>)
        ensures
            ids.deep_view() == native_identifiers(ct@),
            ids.len() >= 1,
    {
        proof {
            use_type_invariant(self);
        }
        self.table.denormalize(&ct)
    }
}

} // verus!
