use arboard::{Clipboard, ContentMap, ContentType, Error, GetContentResult, ImageData};
use std::collections::HashSet;

fn hello_map() -> ContentMap {
    let mut map = ContentMap::new();
    map.insert(ContentType::Text, "hello, world".as_bytes().to_vec());
    map.insert(ContentType::Html, "<span>hello, world!</span>".as_bytes().to_vec());
    map
}

#[test]
fn set_and_get_unicode() {
    let mut ctx = Clipboard::new().unwrap();
    let text = "Some utf8: 🤓 ∑φ(n)<ε 🐔";
    ctx.set_text(text.to_owned()).unwrap();
    assert_eq!(ctx.get_text().unwrap(), text);
}

#[test]
fn set_and_get_image() {
    let mut ctx = Clipboard::new().unwrap();
    let bytes = [
        255, 100, 100, 255,
        100, 255, 100, 100,
        100, 100, 255, 100,
        0, 0, 0, 255,
    ];
    let img_data = ImageData { width: 2, height: 2, bytes: bytes.to_vec() };
    ctx.set_image(img_data.clone()).unwrap();
    let got = ctx.get_image().unwrap();
    assert_eq!(img_data.bytes, got.bytes);
}

#[test]
fn set_several_types() {
    let mut ctx = Clipboard::new().unwrap();
    ctx.set_content_types(hello_map()).unwrap();

    let result = ctx
        .get_content_for_types(&[ContentType::Rtf, ContentType::Html, ContentType::Text])
        .unwrap();
    assert_eq!(ctx.normalize_content_type(result.content_type), ContentType::Html);
    assert_eq!(result.data, "<span>hello, world!</span>".as_bytes().to_vec());
}

#[test]
fn list_content_types() {
    let mut ctx = Clipboard::new().unwrap();
    ctx.set_content_types(hello_map()).unwrap();

    let mut result = HashSet::new();
    for x in ctx.get_content_types().unwrap() {
        result.insert(ctx.normalize_content_type(x));
    }
    let mut reference = HashSet::new();
    reference.insert(ContentType::Text);
    reference.insert(ContentType::Html);
    assert!(reference.is_subset(&result));
}

#[test]
fn absent_type_is_not_available() {
    let mut ctx = Clipboard::new().unwrap();
    ctx.set_text("only text".to_owned()).unwrap();
    let result = ctx.get_content_for_types(&[ContentType::Png]);
    assert!(matches!(result, Err(Error::ContentNotAvailable)));
}

#[test]
fn holding_reports_what_it_was_given() {
    let items = vec![GetContentResult { content_type: "public.rtf".to_owned(), data: vec![1, 2, 3] }];
    let mut ctx = Clipboard::holding(items);
    assert_eq!(ctx.get_content_types().unwrap(), vec!["public.rtf".to_owned()]);
    assert_eq!(ctx.contents().len(), 1);
}
