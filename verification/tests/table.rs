use arboard::mapping::{Association, MappingTable};
use arboard::osx_clipboard::pasteboard_table;
use arboard::ContentType;

fn pair(native: &str, canonical: ContentType) -> Association {
    Association { native: native.to_owned(), canonical }
}

fn mime_entries() -> Vec<Association> {
    vec![
        pair("text/html;charset=utf-8", ContentType::Html),
        pair("UTF8_STRING", ContentType::Text),
        pair("text/html", ContentType::Html),
        pair("text/plain;charset=utf-8", ContentType::Text),
        pair("text/plain", ContentType::Text),
        pair("text/rtf", ContentType::Rtf),
        pair("image/png", ContentType::Png),
        pair("application/pdf", ContentType::Pdf),
        pair("text/uri-list", ContentType::Url),
    ]
}

#[test]
fn table_lists_identifiers_in_order_of_preference() {
    let table = MappingTable::new(mime_entries()).unwrap();
    assert_eq!(
        table.denormalize(&ContentType::Html),
        vec!["text/html;charset=utf-8".to_owned(), "text/html".to_owned()]
    );
    assert_eq!(
        table.denormalize(&ContentType::Text),
        vec![
            "UTF8_STRING".to_owned(),
            "text/plain;charset=utf-8".to_owned(),
            "text/plain".to_owned()
        ]
    );
    assert_eq!(table.denormalize(&ContentType::Url), vec!["text/uri-list".to_owned()]);
    assert_eq!(
        table.denormalize(&ContentType::Custom("TARGETS".to_owned())),
        vec!["TARGETS".to_owned()]
    );
}

#[test]
fn table_normalizes_every_identifier_of_a_type_to_that_type() {
    let table = MappingTable::new(mime_entries()).unwrap();
    let all = [
        ContentType::Text,
        ContentType::Html,
        ContentType::Rtf,
        ContentType::Png,
        ContentType::Pdf,
        ContentType::Url,
    ];
    for ct in all {
        let ids = table.denormalize(&ct);
        assert!(ids.len() >= 1);
        for id in ids {
            assert_eq!(table.normalize(id), ct);
        }
    }
    assert_eq!(table.normalize("TARGETS".to_owned()), ContentType::Custom("TARGETS".to_owned()));
    assert_eq!(table.normalize("text/HTML".to_owned()), ContentType::Custom("text/HTML".to_owned()));
    assert_eq!(table.normalize(String::new()), ContentType::Custom(String::new()));
}

#[test]
fn table_needs_an_identifier_for_every_well_known_type() {
    assert!(MappingTable::new(Vec::new()).is_none());
    for missing in 0..6 {
        let mut entries = vec![
            pair("a", ContentType::Text),
            pair("b", ContentType::Html),
            pair("c", ContentType::Rtf),
            pair("d", ContentType::Png),
            pair("e", ContentType::Pdf),
            pair("f", ContentType::Url),
        ];
        assert!(MappingTable::new(mime_entries()).is_some());
        entries.remove(missing);
        assert!(MappingTable::new(entries).is_none());
    }
}

#[test]
fn table_takes_each_identifier_once() {
    let mut entries = mime_entries();
    entries.push(pair("text/html", ContentType::Text));
    assert!(MappingTable::new(entries).is_none());
    let mut entries = mime_entries();
    entries.push(pair("image/png", ContentType::Png));
    assert!(MappingTable::new(entries).is_none());
    let mut entries = mime_entries();
    entries.insert(0, pair("text/uri-list", ContentType::Url));
    assert!(MappingTable::new(entries).is_none());
}

#[test]
fn table_has_no_entry_for_custom() {
    let mut entries = mime_entries();
    entries.push(pair("TARGETS", ContentType::Custom("TARGETS".to_owned())));
    assert!(MappingTable::new(entries).is_none());
}

#[test]
fn pasteboard_table_has_one_identifier_for_each_type() {
    let table = pasteboard_table();
    assert_eq!(table.denormalize(&ContentType::Text), vec!["public.utf8-plain-text".to_owned()]);
    assert_eq!(table.denormalize(&ContentType::Html), vec!["public.html".to_owned()]);
    assert_eq!(table.denormalize(&ContentType::Rtf), vec!["public.rtf".to_owned()]);
    assert_eq!(table.denormalize(&ContentType::Png), vec!["public.png".to_owned()]);
    assert_eq!(table.denormalize(&ContentType::Pdf), vec!["com.adobe.pdf".to_owned()]);
    assert_eq!(table.denormalize(&ContentType::Url), vec!["public.file-url".to_owned()]);
    assert_eq!(table.normalize("public.png".to_owned()), ContentType::Png);
    assert_eq!(
        table.normalize("public.tiff".to_owned()),
        ContentType::Custom("public.tiff".to_owned())
    );
}
