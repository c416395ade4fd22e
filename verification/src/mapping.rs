//! The mapping table between native format identifiers and canonical
//! content types.
//!
//! A table is an ordered list of associations between a native identifier
//! and a well-known content type. Each identifier stands for one type; a
//! type may have several identifiers, which the table lists in the
//! platform's order of preference.

use crate::common::{CanonicalType, ContentType};
use crate::text::same_text;
use vstd::prelude::*;

verus! {

/// Mathematical value of an [`Association`].
pub struct Pairing {
    pub native: Seq<char>,
    pub canonical: CanonicalType,
}

/// One entry of a mapping table: a native identifier and the well-known
/// content type it stands for.
#[derive(Debug)]
pub struct Association {
    pub native: String,
    pub canonical: ContentType,
}

impl View for Association {
    type V = Pairing;

    open spec fn view(&self) -> Pairing {
        Pairing { native: self.native@, canonical: self.canonical@ }
    }
}

impl DeepView for Association {
    type V = Pairing;

    open spec fn deep_view(&self) -> Pairing {
        self@
    }
}

/// True when `table` has an entry for the identifier `id`.
pub open spec fn knows(table: Seq<Pairing>, id: Seq<char>) -> bool {
    exists|i: int| 0 <= i < table.len() && (#[trigger] table[i]).native == id
}

/// True when `table` has an entry for the content type `ct`.
pub open spec fn covers(table: Seq<Pairing>, ct: CanonicalType) -> bool {
    exists|i: int| 0 <= i < table.len() && (#[trigger] table[i]).canonical == ct
}

/// True when `table` has an entry that pairs `id` with `ct`.
pub open spec fn has_entry(table: Seq<Pairing>, id: Seq<char>, ct: CanonicalType) -> bool {
    exists|i: int|
        0 <= i < table.len() && #[trigger] table[i] == (Pairing { native: id, canonical: ct })
}

/// True when no entry of `table` stands for `Custom`.
pub open spec fn only_well_known(table: Seq<Pairing>) -> bool {
    forall|i: int| 0 <= i < table.len() ==> (#[trigger] table[i]).canonical.is_well_known()
}

/// True when no identifier occurs twice in `table`.
pub open spec fn identifiers_distinct(table: Seq<Pairing>) -> bool {
    forall|i: int, j: int|
        0 <= i < j < table.len() ==> (#[trigger] table[i]).native != (#[trigger] table[j]).native
}

/// True when `table` has an entry for each well-known content type.
pub open spec fn covers_all(table: Seq<Pairing>) -> bool {
    &&& covers(table, CanonicalType::Text)
    &&& covers(table, CanonicalType::Html)
    &&& covers(table, CanonicalType::Rtf)
    &&& covers(table, CanonicalType::Png)
    &&& covers(table, CanonicalType::Pdf)
    &&& covers(table, CanonicalType::Url)
}

/// The invariant of a mapping table: its entries stand for well-known
/// types only, each identifier stands for one type, and every well-known
/// type has an identifier.
pub open spec fn well_formed(table: Seq<Pairing>) -> bool {
    &&& only_well_known(table)
    &&& identifiers_distinct(table)
    &&& covers_all(table)
}

/// Normalization: the content type of the earliest entry for `id`, or
/// `Custom` around `id` where the table has no entry for it.
pub open spec fn canonical_in(table: Seq<Pairing>, id: Seq<char>) -> CanonicalType
    decreases table.len(),
{
    if table.len() == 0 {
        CanonicalType::Custom(id)
    } else if table[0].native == id {
        table[0].canonical
    } else {
        canonical_in(table.drop_first(), id)
    }
}

/// The identifiers of the entries for `ct`, in the table's order.
pub open spec fn identifiers_for(table: Seq<Pairing>, ct: CanonicalType) -> Seq<Seq<char>>
    decreases table.len(),
{
    if table.len() == 0 {
        Seq::empty()
    } else if table.last().canonical == ct {
        identifiers_for(table.drop_last(), ct).push(table.last().native)
    } else {
        identifiers_for(table.drop_last(), ct)
    }
}

/// Denormalization: the identifiers that the table lists for a well-known
/// type, in its order of preference; for `Custom`, the identifier carried.
pub open spec fn identifiers_in(table: Seq<Pairing>, ct: CanonicalType) -> Seq<Seq<char>> {
    match ct {
        CanonicalType::Custom(id) => seq![id],
        _ => identifiers_for(table, ct),
    }
}

/// An identifier without an entry normalizes to `Custom` around itself.
pub proof fn unknown_identifier_is_custom(table: Seq<Pairing>, id: Seq<char>)
    requires
        !knows(table, id),
    ensures
        canonical_in(table, id) == CanonicalType::Custom(id),
    decreases table.len(),
{
    if table.len() > 0 {
        let rest = table.drop_first();
        assert(forall|i: int| 0 <= i < rest.len() ==> (#[trigger] rest[i]).native != id);
        unknown_identifier_is_custom(rest, id);
    }
}

/// Where no identifier occurs twice, the identifier of an entry
/// normalizes to the content type of that entry.
pub proof fn entry_decides_its_identifier(table: Seq<Pairing>, i: int)
    requires
        identifiers_distinct(table),
        0 <= i < table.len(),
    ensures
        canonical_in(table, table[i].native) == table[i].canonical,
    decreases table.len(),
{
    if i > 0 {
        let rest = table.drop_first();
        assert(identifiers_distinct(rest));
        entry_decides_its_identifier(rest, i - 1);
    }
}

/// Each identifier listed for a content type belongs to an entry for that
/// type, and a type with an entry has an identifier listed.
pub proof fn listed_identifiers_are_entries(table: Seq<Pairing>, ct: CanonicalType)
    ensures
        forall|k: int|
            0 <= k < identifiers_for(table, ct).len() ==> has_entry(
                table,
                #[trigger] identifiers_for(table, ct)[k],
                ct,
            ),
        covers(table, ct) ==> identifiers_for(table, ct).len() >= 1,
    decreases table.len(),
{
    if table.len() > 0 {
        let rest = table.drop_last();
        let last = table.last();
        listed_identifiers_are_entries(rest, ct);
        let ids = identifiers_for(table, ct);
        assert forall|k: int| 0 <= k < ids.len() implies has_entry(table, #[trigger] ids[k], ct) by {
            if k < identifiers_for(rest, ct).len() {
                let id = identifiers_for(rest, ct)[k];
                let i = choose|i: int|
                    0 <= i < rest.len() && #[trigger] rest[i] == (Pairing {
                        native: id,
                        canonical: ct,
                    });
                assert(table[i] == rest[i]);
            } else {
                assert(table[table.len() - 1] == last);
            }
        }
        if covers(table, ct) && last.canonical != ct {
            let i = choose|i: int| 0 <= i < table.len() && (#[trigger] table[i]).canonical == ct;
            assert(rest[i] == table[i]);
        }
    }
}

/// Denormalization never comes back empty.
pub proof fn identifiers_are_never_empty(table: Seq<Pairing>, ct: CanonicalType)
    requires
        well_formed(table),
    ensures
        identifiers_in(table, ct).len() >= 1,
{
    listed_identifiers_are_entries(table, ct);
}

/// Every identifier of a well-known type normalizes to that type; so does
/// in particular the preferred one.
pub proof fn identifiers_normalize_to_their_type(table: Seq<Pairing>, ct: CanonicalType, k: int)
    requires
        well_formed(table),
        ct.is_well_known(),
        0 <= k < identifiers_in(table, ct).len(),
    ensures
        canonical_in(table, identifiers_in(table, ct)[k]) == ct,
{
    listed_identifiers_are_entries(table, ct);
    let id = identifiers_for(table, ct)[k];
    let i = choose|i: int|
        0 <= i < table.len() && #[trigger] table[i] == (Pairing { native: id, canonical: ct });
    entry_decides_its_identifier(table, i);
}

/// Normalization answers with a well-known type exactly for the
/// identifiers that have an entry.
pub proof fn well_known_means_known(table: Seq<Pairing>, id: Seq<char>)
    requires
        only_well_known(table),
    ensures
        canonical_in(table, id).is_well_known() <==> knows(table, id),
    decreases table.len(),
{
    if table.len() > 0 && table[0].native != id {
        let rest = table.drop_first();
        assert(only_well_known(rest));
        well_known_means_known(rest, id);
        if knows(rest, id) {
            let i = choose|i: int| 0 <= i < rest.len() && (#[trigger] rest[i]).native == id;
            assert(table[i + 1] == rest[i]);
        }
        if knows(table, id) {
            let i = choose|i: int| 0 <= i < table.len() && (#[trigger] table[i]).native == id;
            assert(rest[i - 1] == table[i]);
        }
    }
}

/// A mapping table, built once and not changed afterwards.
pub struct MappingTable {
    entries: Vec<Association>,
}

impl View for MappingTable {
    type V = Seq<Pairing>;

    /// The entries in the table's order.
    closed spec fn view(&self) -> Seq<Pairing> {
        self.entries.deep_view()
    }
}

/// Tells whether no entry stands for `Custom`.
fn stands_for_well_known_only(entries: &Vec<Association>) -> (r: bool)
    ensures
        r == only_well_known(entries.deep_view()),
{
    let mut i: usize = 0;
    while i < entries.len()
        invariant
            i <= entries.len(),
            forall|k: int|
                0 <= k < i ==> (#[trigger] entries.deep_view()[k]).canonical.is_well_known(),
        decreases entries.len() - i,
    {
        match entries[i].canonical {
            ContentType::Custom(_) => {
                assert(!entries.deep_view()[i as int].canonical.is_well_known());
                return false;
            },
            _ => {},
        }
        i += 1;
    }
    true
}

/// Tells whether no identifier occurs twice.
fn holds_each_identifier_once(entries: &Vec<Association>) -> (r: bool)
    ensures
        r == identifiers_distinct(entries.deep_view()),
{
    let mut j: usize = 0;
    while j < entries.len()
        invariant
            j <= entries.len(),
            forall|a: int, b: int|
                0 <= a < b < j ==> (#[trigger] entries.deep_view()[a]).native != (
                #[trigger] entries.deep_view()[b]).native,
        decreases entries.len() - j,
    {
        let mut i: usize = 0;
        while i < j
            invariant
                i <= j < entries.len(),
                forall|a: int|
                    0 <= a < i ==> (#[trigger] entries.deep_view()[a]).native
                        != entries.deep_view()[j as int].native,
            decreases j - i,
        {
            if same_text(entries[i].native.as_str(), entries[j].native.as_str()) {
                assert(entries.deep_view()[i as int].native == entries.deep_view()[j as int].native);
                return false;
            }
            i += 1;
        }
        j += 1;
    }
    true
}

/// Tells whether some entry stands for `ct`.
fn has_entry_for(entries: &Vec<Association>, ct: &ContentType) -> (r: bool)
    ensures
        r == covers(entries.deep_view(), ct@),
{
    let mut i: usize = 0;
    while i < entries.len()
        invariant
            i <= entries.len(),
            forall|k: int| 0 <= k < i ==> (#[trigger] entries.deep_view()[k]).canonical != ct@,
        decreases entries.len() - i,
    {
        if entries[i].canonical == *ct {
            assert(entries.deep_view()[i as int].canonical == ct@);
            return true;
        }
        i += 1;
    }
    false
}

impl MappingTable {
    #[verifier::type_invariant]
    spec fn is_well_formed(&self) -> bool {
        well_formed(self.entries.deep_view())
    }

    /// Builds a table from its entries, given in order of preference.
    /// Entries that are not well formed make no table.
    pub fn new(entries: Vec<Association>) -> (r: Option<MappingTable>)
        ensures
            match r {
                Some(table) => table@ == entries.deep_view() && well_formed(table@),
                None => !well_formed(entries.deep_view()),
            },
    {
        if stands_for_well_known_only(&entries) && holds_each_identifier_once(&entries)
            && has_entry_for(&entries, &ContentType::Text) && has_entry_for(
            &entries,
            &ContentType::Html,
        ) && has_entry_for(&entries, &ContentType::Rtf) && has_entry_for(
            &entries,
            &ContentType::Png,
        ) && has_entry_for(&entries, &ContentType::Pdf) && has_entry_for(
            &entries,
            &ContentType::Url,
        ) {
            Some(MappingTable { entries })
        } else {
            None
        }
    }

    /// Normalizes a native identifier: the content type of its entry, or
    /// `Custom` around the identifier where it has none.
    pub fn normalize(&self, id: String) -> (ct: ContentType)
        ensures
            ct@ == canonical_in(self@, id@),
    {
        let mut i: usize = 0;
        assert(self@.skip(0) =~= self@);
        while i < self.entries.len()
            invariant
                i <= self.entries.len(),
                canonical_in(self@, id@) == canonical_in(self@.skip(i as int), id@),
            decreases self.entries.len() - i,
        {
            assert(self@.skip(i as int).drop_first() =~= self@.skip(i + 1));
            if same_text(self.entries[i].native.as_str(), id.as_str()) {
                return self.entries[i].canonical.clone();
            }
            i += 1;
        }
        ContentType::Custom(id)
    }

    /// Denormalizes a content type: its native identifiers, most preferred
    /// first. The list is never empty.
    pub fn denormalize(&self, ct: &ContentType) -> (ids: Vec<String>)
        ensures
            ids.deep_view() == identifiers_in(self@, ct@),
            ids.len() >= 1,
    {
        let mut ids: Vec<String> = Vec::new();
        match ct {
            ContentType::Custom(id) => {
                ids.push(id.clone());
                return ids;
            },
            _ => {},
        }
        let mut i: usize = 0;
        while i < self.entries.len()
            invariant
                i <= self.entries.len(),
                ids.deep_view() =~= identifiers_for(self@.take(i as int), ct@),
            decreases self.entries.len() - i,
        {
            assert(self@.take(i + 1).drop_last() =~= self@.take(i as int));
            if self.entries[i].canonical == *ct {
                ids.push(self.entries[i].native.clone());
            }
            i += 1;
        }
        assert(self@.take(i as int) =~= self@);
        proof {
            use_type_invariant(self);
            identifiers_are_never_empty(self@, ct@);
        }
        ids
    }
}

} // verus!
