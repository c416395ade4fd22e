use arboard::text::{decode_text, encode_text, same_bytes, same_text};
use arboard::{Clipboard, Error, GetContentResult};

#[test]
fn text_round_trip() {
    let mut ctx = Clipboard::new().unwrap();
    for text in ["some string", "", " ", "line\nbreak\ttab", "\u{0}", "żółć", "日本語", "🦀🦀"] {
        ctx.set_text(text.to_owned()).unwrap();
        assert_eq!(ctx.get_text().unwrap(), text);
    }
}

#[test]
fn text_is_written_as_utf8_under_the_text_identifier() {
    let mut ctx = Clipboard::new().unwrap();
    ctx.set_text("aé€".to_owned()).unwrap();
    assert_eq!(ctx.contents().len(), 1);
    assert_eq!(ctx.contents()[0].content_type, "public.utf8-plain-text");
    assert_eq!(ctx.contents()[0].data, vec![0x61, 0xc3, 0xa9, 0xe2, 0x82, 0xac]);
}

#[test]
fn no_text_on_an_empty_clipboard() {
    let mut ctx = Clipboard::holding(Vec::new());
    assert!(matches!(ctx.get_text(), Err(Error::ContentNotAvailable)));
}

#[test]
fn no_text_where_only_other_types_are_held() {
    let mut ctx = Clipboard::holding(vec![GetContentResult {
        content_type: "public.html".to_owned(),
        data: b"<p>markup</p>".to_vec(),
    }]);
    assert!(matches!(ctx.get_text(), Err(Error::ContentNotAvailable)));
}

#[test]
fn text_that_is_not_utf8_is_not_available() {
    let mut ctx = Clipboard::holding(vec![
        GetContentResult { content_type: "public.utf8-plain-text".to_owned(), data: vec![0xff, 0xfe] },
        GetContentResult { content_type: "public.utf8-plain-text".to_owned(), data: b"fine".to_vec() },
    ]);
    assert!(matches!(ctx.get_text(), Err(Error::ContentNotAvailable)));
}

#[test]
fn first_text_representation_is_read() {
    let mut ctx = Clipboard::holding(vec![
        GetContentResult { content_type: "public.html".to_owned(), data: b"<p>x</p>".to_vec() },
        GetContentResult { content_type: "public.utf8-plain-text".to_owned(), data: b"first".to_vec() },
        GetContentResult { content_type: "public.utf8-plain-text".to_owned(), data: b"second".to_vec() },
    ]);
    assert_eq!(ctx.get_text().unwrap(), "first");
}

#[test]
fn strings_compare_by_their_characters() {
    assert!(same_text("", ""));
    assert!(same_text("public.html", "public.html"));
    assert!(!same_text("public.html", "public.htm"));
    assert!(!same_text("public.html", "public.htmk"));
    assert!(!same_text("a", ""));
    assert!(same_text("é", "\u{e9}"));
    assert!(!same_text("é", "e\u{301}"));
}

#[test]
fn byte_strings_compare_byte_by_byte() {
    assert!(same_bytes(&[], &[]));
    assert!(same_bytes(&[1, 2, 3], &[1, 2, 3]));
    assert!(!same_bytes(&[1, 2, 3], &[1, 2]));
    assert!(!same_bytes(&[1, 2], &[1, 2, 3]));
    assert!(!same_bytes(&[1, 2, 3], &[1, 2, 4]));
    assert!(!same_bytes(&[0], &[]));
}

#[test]
fn decoding_accepts_utf8_only() {
    assert_eq!(decode_text(&[]), Some(String::new()));
    assert_eq!(decode_text(&[0x68, 0x69]), Some("hi".to_owned()));
    assert_eq!(decode_text(&[0xf0, 0x9f, 0xa6, 0x80]), Some("🦀".to_owned()));
    assert_eq!(decode_text(&[0xf0, 0x9f, 0xa6]), None);
    assert_eq!(decode_text(&[0xc0, 0x80]), None);
    assert_eq!(decode_text(&[0xed, 0xa0, 0x80]), None);
    assert_eq!(decode_text(&[0x80]), None);
}

#[test]
fn encoding_gives_the_utf8_bytes() {
    assert_eq!(encode_text(""), Vec::<u8>::new());
    assert_eq!(encode_text("hi"), vec![0x68, 0x69]);
    assert_eq!(encode_text("€"), vec![0xe2, 0x82, 0xac]);
    assert_eq!(decode_text(&encode_text("∑φ(n)<ε")), Some("∑φ(n)<ε".to_owned()));
}
