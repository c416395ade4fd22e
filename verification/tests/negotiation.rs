use arboard::osx_clipboard::{OSXClipboardContext, WriteKind};
use arboard::{Clipboard, ContentMap, ContentType, Error, GetContentResult};

fn offer(id: &str, data: &[u8]) -> GetContentResult {
    GetContentResult { content_type: id.to_owned(), data: data.to_vec() }
}

#[test]
fn priority_decides_not_clipboard_order() {
    let mut ctx = Clipboard::holding(vec![
        offer("public.utf8-plain-text", b"plain"),
        offer("public.html", b"<b>rich</b>"),
    ]);
    let got = ctx
        .get_content_for_types(&[ContentType::Rtf, ContentType::Html, ContentType::Text])
        .unwrap();
    assert_eq!(got.content_type, "public.html");
    assert_eq!(got.data, b"<b>rich</b>".to_vec());

    let got = ctx.get_content_for_types(&[ContentType::Text, ContentType::Html]).unwrap();
    assert_eq!(got.content_type, "public.utf8-plain-text");
    assert_eq!(got.data, b"plain".to_vec());
}

#[test]
fn earliest_representation_under_an_identifier_is_returned() {
    let mut ctx = Clipboard::holding(vec![
        offer("public.png", &[1]),
        offer("public.html", &[2]),
        offer("public.png", &[3]),
    ]);
    let got = ctx.get_content_for_types(&[ContentType::Png]).unwrap();
    assert_eq!(got.data, vec![1]);
}

#[test]
fn empty_priority_finds_nothing() {
    let mut ctx = Clipboard::holding(vec![offer("public.html", &[2])]);
    assert!(matches!(ctx.get_content_for_types(&[]), Err(Error::ContentNotAvailable)));
}

#[test]
fn empty_clipboard_finds_nothing() {
    let mut ctx = Clipboard::holding(Vec::new());
    assert!(matches!(
        ctx.get_content_for_types(&[ContentType::Text, ContentType::Html]),
        Err(Error::ContentNotAvailable)
    ));
    assert_eq!(ctx.get_content_types().unwrap(), Vec::<String>::new());
}

#[test]
fn custom_types_are_found_under_their_identifier() {
    let mut ctx = Clipboard::holding(vec![
        offer("org.example.sketch", &[7, 7]),
        offer("public.html", &[2]),
    ]);
    let got = ctx
        .get_content_for_types(&[
            ContentType::Custom("org.example.other".to_owned()),
            ContentType::Custom("org.example.sketch".to_owned()),
            ContentType::Html,
        ])
        .unwrap();
    assert_eq!(got.content_type, "org.example.sketch");
    assert_eq!(got.data, vec![7, 7]);

    let got =
        ctx.get_content_for_types(&[ContentType::Custom("public.html".to_owned())]).unwrap();
    assert_eq!(got.data, vec![2]);
}

#[test]
fn reading_leaves_the_contents_alone() {
    let mut ctx = Clipboard::holding(vec![offer("public.rtf", &[1]), offer("public.pdf", &[2])]);
    let _ = ctx.get_content_for_types(&[ContentType::Rtf]);
    let _ = ctx.get_text();
    let _ = ctx.get_image();
    let _ = ctx.get_content_types();
    assert_eq!(ctx.contents().len(), 2);
    assert_eq!(ctx.contents()[0].content_type, "public.rtf");
    assert_eq!(ctx.contents()[1].data, vec![2]);
}

#[test]
fn listing_follows_the_order_of_the_map() {
    let mut map = ContentMap::new();
    map.insert(ContentType::Pdf, vec![1]);
    map.insert(ContentType::Custom("org.example.sketch".to_owned()), vec![2]);
    map.insert(ContentType::Url, vec![3]);
    let mut ctx = Clipboard::new().unwrap();
    ctx.set_content_types(map).unwrap();
    assert_eq!(
        ctx.get_content_types().unwrap(),
        vec![
            "com.adobe.pdf".to_owned(),
            "org.example.sketch".to_owned(),
            "public.file-url".to_owned()
        ]
    );
    assert_eq!(ctx.contents()[1].data, vec![2]);
}

#[test]
fn a_write_replaces_everything_held_before() {
    let mut first = ContentMap::new();
    first.insert(ContentType::Text, b"one".to_vec());
    first.insert(ContentType::Html, b"<i>one</i>".to_vec());
    first.insert(ContentType::Pdf, vec![0x25]);
    let mut second = ContentMap::new();
    second.insert(ContentType::Rtf, b"{\\rtf1 two}".to_vec());

    let mut ctx = Clipboard::new().unwrap();
    ctx.set_content_types(first).unwrap();
    ctx.set_content_types(second).unwrap();
    assert_eq!(ctx.get_content_types().unwrap(), vec!["public.rtf".to_owned()]);
    assert!(matches!(
        ctx.get_content_for_types(&[ContentType::Text, ContentType::Html, ContentType::Pdf]),
        Err(Error::ContentNotAvailable)
    ));

    ctx.set_text("three".to_owned()).unwrap();
    assert_eq!(ctx.get_content_types().unwrap(), vec!["public.utf8-plain-text".to_owned()]);
}

#[test]
fn writing_an_empty_map_empties_the_clipboard() {
    let mut ctx = Clipboard::new().unwrap();
    ctx.set_text("something".to_owned()).unwrap();
    ctx.set_content_types(ContentMap::new()).unwrap();
    assert_eq!(ctx.get_content_types().unwrap(), Vec::<String>::new());
    assert!(matches!(ctx.get_text(), Err(Error::ContentNotAvailable)));
}

#[test]
fn entries_that_share_an_identifier_are_both_written() {
    let mut map = ContentMap::new();
    map.insert(ContentType::Html, vec![1]);
    map.insert(ContentType::Custom("public.html".to_owned()), vec![2]);
    let mut ctx = Clipboard::new().unwrap();
    ctx.set_content_types(map).unwrap();
    assert_eq!(
        ctx.get_content_types().unwrap(),
        vec!["public.html".to_owned(), "public.html".to_owned()]
    );
    let got = ctx.get_content_for_types(&[ContentType::Html]).unwrap();
    assert_eq!(got.data, vec![1]);
}

#[test]
fn map_keeps_one_payload_for_each_key() {
    let mut map = ContentMap::new();
    assert_eq!(map.len(), 0);
    assert_eq!(map.get(&ContentType::Text), None);
    assert_eq!(map.insert(ContentType::Text, vec![1]), None);
    assert_eq!(map.insert(ContentType::Html, vec![2]), None);
    assert_eq!(map.insert(ContentType::Custom("x".to_owned()), vec![3]), None);
    assert_eq!(map.insert(ContentType::Text, vec![4]), Some(vec![1]));
    assert_eq!(map.insert(ContentType::Custom("x".to_owned()), vec![5]), Some(vec![3]));
    assert_eq!(map.len(), 3);
    assert_eq!(map.get(&ContentType::Text), Some(&vec![4]));
    assert_eq!(map.get(&ContentType::Html), Some(&vec![2]));
    assert_eq!(map.get(&ContentType::Custom("x".to_owned())), Some(&vec![5]));
    assert_eq!(map.get(&ContentType::Custom("y".to_owned())), None);
    assert_eq!(
        map.into_entries(),
        vec![
            (ContentType::Text, vec![4]),
            (ContentType::Html, vec![2]),
            (ContentType::Custom("x".to_owned()), vec![5]),
        ]
    );
}

#[test]
fn opening_fails_without_the_class_or_the_pasteboard() {
    assert!(OSXClipboardContext::open_status(true, true).is_ok());
    match OSXClipboardContext::open_status(false, false) {
        Err(Error::Unknown { description }) => {
            assert_eq!(description, "Class::get(\"NSPasteboard\")")
        }
        other => panic!("{:?}", other),
    }
    match OSXClipboardContext::open_status(false, true) {
        Err(Error::Unknown { description }) => {
            assert_eq!(description, "Class::get(\"NSPasteboard\")")
        }
        other => panic!("{:?}", other),
    }
    match OSXClipboardContext::open_status(true, false) {
        Err(Error::Unknown { description }) => {
            assert_eq!(description, "NSPasteboard#generalPasteboard returned null")
        }
        other => panic!("{:?}", other),
    }
}

#[test]
fn a_refused_write_is_reported_by_its_kind() {
    assert!(OSXClipboardContext::write_status(WriteKind::Text, true).is_ok());
    assert!(OSXClipboardContext::write_status(WriteKind::Image, true).is_ok());
    assert!(OSXClipboardContext::write_status(WriteKind::ContentTypes, true).is_ok());
    match OSXClipboardContext::write_status(WriteKind::Text, false) {
        Err(Error::Unknown { description }) => {
            assert_eq!(description, "NSPasteboard#writeObjects: returned false")
        }
        other => panic!("{:?}", other),
    }
    match OSXClipboardContext::write_status(WriteKind::Image, false) {
        Err(Error::Unknown { description }) => assert_eq!(
            description,
            "Failed to write the image to the pasteboard (`writeObjects` returned NO)."
        ),
        other => panic!("{:?}", other),
    }
    assert!(matches!(
        OSXClipboardContext::write_status(WriteKind::ContentTypes, false),
        Err(Error::ClipboardOccupied)
    ));
}
