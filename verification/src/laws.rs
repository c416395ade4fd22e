//! What holds of the mapping table, of content negotiation and of writes
//! followed by reads.

use crate::codec::image_in;
use crate::common::{CanonicalType, ImageReading, Payload, Pixels};
use crate::mapping::{
    entry_decides_its_identifier, identifiers_are_never_empty,
    identifiers_normalize_to_their_type, knows, unknown_identifier_is_custom,
};
use crate::osx_clipboard::{
    canonical_type, find_offer, first_offered, identifiers, identifiers_differ, image_of, in_table,
    native_identifiers, negotiate, offers_of, pasteboard_pairs, pasteboard_table_entries,
    pasteboard_table_is_well_formed, preferred_identifier, text_of, text_offer, HTML_ID, PNG_ID,
    RTF_ID, TEXT_ID, TIFF_ID,
};
use crate::text::decoding_inverts_encoding;
use vstd::prelude::*;

verus! {

/// A canonical type survives normalization when it is well known, or
/// `Custom` around an identifier that the table does not claim for a
/// well-known type.
pub open spec fn survives_normalization(ct: CanonicalType) -> bool {
    match ct {
        CanonicalType::Custom(id) => !in_table(id),
        _ => true,
    }
}

/// Every canonical type has at least one native identifier.
pub proof fn denormalization_is_never_empty(ct: CanonicalType)
    ensures
        native_identifiers(ct).len() >= 1,
{
    pasteboard_table_is_well_formed();
    identifiers_are_never_empty(pasteboard_pairs(), ct);
}

/// Normalizing the preferred identifier of a well-known type gives that
/// type back.
pub proof fn normalization_inverts_denormalization(ct: CanonicalType)
    requires
        ct.is_well_known(),
    ensures
        canonical_type(native_identifiers(ct)[0]) == ct,
{
    pasteboard_table_is_well_formed();
    identifiers_are_never_empty(pasteboard_pairs(), ct);
    identifiers_normalize_to_their_type(pasteboard_pairs(), ct, 0);
}

/// An identifier that the table does not know normalizes to `Custom`
/// around itself, and that denormalizes to the identifier alone.
pub proof fn custom_round_trip(id: Seq<char>)
    requires
        !in_table(id),
    ensures
        canonical_type(id) == CanonicalType::Custom(id),
        native_identifiers(CanonicalType::Custom(id)) == seq![id],
{
    unknown_identifier_is_custom(pasteboard_pairs(), id);
}

/// A canonical type that survives normalization is what its preferred
/// identifier normalizes to.
pub proof fn surviving_type_is_recovered(ct: CanonicalType)
    requires
        survives_normalization(ct),
    ensures
        canonical_type(preferred_identifier(ct)) == ct,
{
    match ct {
        CanonicalType::Custom(id) => {
            custom_round_trip(id);
        },
        _ => {
            normalization_inverts_denormalization(ct);
        },
    }
}

/// On the pasteboard, where no type has two identifiers, normalization
/// loses nothing: whatever an identifier normalizes to denormalizes to
/// that identifier alone.
pub proof fn denormalization_inverts_normalization(id: Seq<char>)
    ensures
        native_identifiers(canonical_type(id)) == seq![id],
{
    let table = pasteboard_pairs();
    pasteboard_table_is_well_formed();
    pasteboard_table_entries();
    if knows(table, id) {
        let i = choose|i: int| 0 <= i < table.len() && (#[trigger] table[i]).native == id;
        entry_decides_its_identifier(table, i);
    } else {
        unknown_identifier_is_custom(table, id);
    }
}

/// A search by identifier finds the earliest payload under it, and finds
/// nothing only where no payload stands under it.
pub proof fn find_offer_takes_the_earliest(offers: Seq<Payload>, id: Seq<char>)
    ensures
        match find_offer(offers, id) {
            Some(payload) => exists|j: int|
                0 <= j < offers.len() && #[trigger] offers[j] == payload && payload.content_type
                    == id && forall|k: int| 0 <= k < j ==> (#[trigger] offers[k]).content_type != id,
            None => forall|k: int|
                0 <= k < offers.len() ==> (#[trigger] offers[k]).content_type != id,
        },
    decreases offers.len(),
{
    if offers.len() == 0 {
    } else if offers[0].content_type == id {
    } else {
        let rest = offers.drop_first();
        find_offer_takes_the_earliest(rest, id);
        match find_offer(rest, id) {
            Some(payload) => {
                let j = choose|j: int|
                    0 <= j < rest.len() && #[trigger] rest[j] == payload && forall|k: int|
                        0 <= k < j ==> (#[trigger] rest[k]).content_type != id;
                assert forall|k: int| 0 <= k < j + 1 implies (#[trigger] offers[k]).content_type
                    != id by {
                    if k > 0 {
                        assert(rest[k - 1] == offers[k]);
                    }
                }
            },
            None => {
                assert forall|k: int| 0 <= k < offers.len() implies (
                #[trigger] offers[k]).content_type != id by {
                    if k > 0 {
                        assert(rest[k - 1] == offers[k]);
                    }
                }
            },
        }
    }
}

/// Among several identifiers the earliest one under which anything is
/// offered decides, and nothing is found only where nothing is offered
/// under any of them.
pub proof fn first_offered_takes_the_earliest(offers: Seq<Payload>, ids: Seq<Seq<char>>)
    ensures
        match first_offered(offers, ids) {
            Some(payload) => exists|k: int|
                0 <= k < ids.len() && find_offer(offers, #[trigger] ids[k]) == Some(payload)
                    && forall|m: int| 0 <= m < k ==> find_offer(offers, #[trigger] ids[m]) is None,
            None => forall|k: int|
                0 <= k < ids.len() ==> find_offer(offers, #[trigger] ids[k]) is None,
        },
    decreases ids.len(),
{
    if ids.len() == 0 {
    } else if find_offer(offers, ids[0]) is Some {
    } else {
        let rest = ids.drop_first();
        first_offered_takes_the_earliest(offers, rest);
        match first_offered(offers, rest) {
            Some(payload) => {
                let k = choose|k: int|
                    0 <= k < rest.len() && find_offer(offers, #[trigger] rest[k]) == Some(payload)
                        && forall|m: int|
                        0 <= m < k ==> find_offer(offers, #[trigger] rest[m]) is None;
                assert forall|m: int| 0 <= m < k + 1 implies find_offer(
                    offers,
                    #[trigger] ids[m],
                ) is None by {
                    if m > 0 {
                        assert(rest[m - 1] == ids[m]);
                    }
                }
            },
            None => {
                assert forall|k: int| 0 <= k < ids.len() implies find_offer(
                    offers,
                    #[trigger] ids[k],
                ) is None by {
                    if k > 0 {
                        assert(rest[k - 1] == ids[k]);
                    }
                }
            },
        }
    }
}

/// Negotiation follows the caller's priority: the earliest type of the
/// list under which anything is offered decides, and negotiation fails
/// only where nothing is offered under any type of the list.
pub proof fn negotiation_follows_priority(offers: Seq<Payload>, priority: Seq<CanonicalType>)
    ensures
        match negotiate(offers, priority) {
            Some(payload) => exists|i: int|
                0 <= i < priority.len() && first_offered(
                    offers,
                    native_identifiers(#[trigger] priority[i]),
                ) == Some(payload) && forall|m: int|
                    0 <= m < i ==> first_offered(
                        offers,
                        native_identifiers(#[trigger] priority[m]),
                    ) is None,
            None => forall|i: int|
                0 <= i < priority.len() ==> first_offered(
                    offers,
                    native_identifiers(#[trigger] priority[i]),
                ) is None,
        },
    decreases priority.len(),
{
    if priority.len() == 0 {
    } else if first_offered(offers, native_identifiers(priority[0])) is Some {
    } else {
        let rest = priority.drop_first();
        negotiation_follows_priority(offers, rest);
        match negotiate(offers, rest) {
            Some(payload) => {
                let i = choose|i: int|
                    0 <= i < rest.len() && first_offered(
                        offers,
                        native_identifiers(#[trigger] rest[i]),
                    ) == Some(payload) && forall|m: int|
                        0 <= m < i ==> first_offered(
                            offers,
                            native_identifiers(#[trigger] rest[m]),
                        ) is None;
                assert forall|m: int| 0 <= m < i + 1 implies first_offered(
                    offers,
                    native_identifiers(#[trigger] priority[m]),
                ) is None by {
                    if m > 0 {
                        assert(rest[m - 1] == priority[m]);
                    }
                }
            },
            None => {
                assert forall|i: int| 0 <= i < priority.len() implies first_offered(
                    offers,
                    native_identifiers(#[trigger] priority[i]),
                ) is None by {
                    if i > 0 {
                        assert(rest[i - 1] == priority[i]);
                    }
                }
            },
        }
    }
}

/// Text written is the text read back, whatever characters it holds.
pub proof fn text_round_trip(text: Seq<char>)
    ensures
        text_of(seq![text_offer(text)]) == Some(text),
{
    denormalization_is_never_empty(CanonicalType::Text);
    decoding_inverts_encoding(text);
}

/// An image written is the image read back, pixel for pixel: where the
/// clipboard holds nothing but a file that holds an image, as it does
/// after the image has been written, reading gives that image.
pub proof fn image_round_trip(offers: Seq<Payload>, image: Pixels)
    requires
        offers.len() == 1,
        offers[0].content_type == TIFF_ID@,
        image_in(offers[0].data) == Some(image),
    ensures
        image_of(offers) == ImageReading::Image(image),
{
}

/// Where HTML and plain text are both offered and rich text is not, a
/// request for rich text, HTML or plain text, in that order, is answered
/// with the HTML.
pub proof fn html_wins_over_text_where_rtf_is_absent(offers: Seq<Payload>)
    requires
        find_offer(offers, HTML_ID@) is Some,
        find_offer(offers, TEXT_ID@) is Some,
        find_offer(offers, RTF_ID@) is None,
    ensures
        negotiate(offers, seq![CanonicalType::Rtf, CanonicalType::Html, CanonicalType::Text])
            == find_offer(offers, HTML_ID@),
{
    pasteboard_table_entries();
    let priority = seq![CanonicalType::Rtf, CanonicalType::Html, CanonicalType::Text];
    let rtf = native_identifiers(CanonicalType::Rtf);
    assert(first_offered(offers, rtf.drop_first()) is None);
    assert(negotiate(offers, priority.drop_first()) == find_offer(offers, HTML_ID@));
}

/// Where nothing but plain text is offered, a request for a PNG image
/// finds nothing.
pub proof fn png_is_absent_where_only_text_is_offered(offers: Seq<Payload>)
    requires
        forall|j: int| 0 <= j < offers.len() ==> (#[trigger] offers[j]).content_type == TEXT_ID@,
    ensures
        negotiate(offers, seq![CanonicalType::Png]) is None,
{
    pasteboard_table_entries();
    identifiers_differ();
    find_offer_takes_the_earliest(offers, PNG_ID@);
    let priority = seq![CanonicalType::Png];
    let png = native_identifiers(CanonicalType::Png);
    assert(first_offered(offers, png.drop_first()) is None);
    assert(negotiate(offers, priority.drop_first()) is None);
}

/// After a multi-format write the listing holds, position by position,
/// the preferred identifier of each entry written and nothing else:
/// nothing of an earlier write is left.
pub proof fn listing_after_write(entries: Seq<(CanonicalType, Seq<u8>)>)
    ensures
        identifiers(offers_of(entries)).len() == entries.len(),
        forall|i: int|
            0 <= i < entries.len() ==> #[trigger] identifiers(offers_of(entries))[i]
                == preferred_identifier(entries[i].0),
{
}

/// After a multi-format write, normalizing the listing gives back every
/// type written that survives normalization, at the place of its entry.
pub proof fn written_types_are_listed(entries: Seq<(CanonicalType, Seq<u8>)>, i: int)
    requires
        0 <= i < entries.len(),
        survives_normalization(entries[i].0),
    ensures
        canonical_type(identifiers(offers_of(entries))[i]) == entries[i].0,
{
    surviving_type_is_recovered(entries[i].0);
}

/// After a multi-format write, each type written is found again under
/// its preferred identifier, with the payload of the earliest entry that
/// is written under that identifier.
pub proof fn written_payload_is_found(entries: Seq<(CanonicalType, Seq<u8>)>, i: int)
    requires
        0 <= i < entries.len(),
        forall|k: int|
            0 <= k < i ==> preferred_identifier((#[trigger] entries[k]).0) != preferred_identifier(
                entries[i].0,
            ),
    ensures
        negotiate(offers_of(entries), seq![entries[i].0]) == Some(offers_of(entries)[i]),
{
    let offers = offers_of(entries);
    let id = preferred_identifier(entries[i].0);
    find_offer_takes_the_earliest(offers, id);
    match find_offer(offers, id) {
        Some(payload) => {
            let j = choose|j: int|
                0 <= j < offers.len() && #[trigger] offers[j] == payload && payload.content_type
                    == id && forall|k: int| 0 <= k < j ==> (#[trigger] offers[k]).content_type != id;
            if j > i {
                assert(offers[i].content_type != id);
            }
        },
        None => {},
    }
    pasteboard_table_entries();
}

} // verus!
