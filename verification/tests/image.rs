//! Image format sniffing and the image message turn.

use gemini_client::body::Part;
use gemini_client::model::image_content;
use gemini_client::utils::image::{base64_encode, guess_image_format, image_type_and_base64};

const PNG_MAGIC: [u8; 8] = [0x89, 0x50, 0x4E, 0x47, 0x0D, 0x0A, 0x1A, 0x0A];

#[test]
fn guess_image_format_knows_the_magic_bytes() {
    let png = [0x89u8, 0x50, 0x4E, 0x47, 0x0D, 0x0A, 0x1A, 0x0A, 0x00, 0x00];
    assert_eq!(guess_image_format(&png), "image/png");
    let jpeg = [0xFFu8, 0xD8, 0xFF, 0xE0, 0x00];
    assert_eq!(guess_image_format(&jpeg), "image/jpeg");
    let gif = *b"GIF89a";
    assert_eq!(guess_image_format(&gif), "image/gif");
    let mut webp = [0u8; 16];
    webp[0..4].copy_from_slice(b"RIFF");
    webp[8..12].copy_from_slice(b"WEBP");
    assert_eq!(guess_image_format(&webp), "image/webp");
    let bmp = *b"BM....";
    assert_eq!(guess_image_format(&bmp), "image/bmp");
    let tiff = [0x49u8, 0x49, 0x2A, 0x00];
    assert_eq!(guess_image_format(&tiff), "image/tiff");
    let pnm = *b"P6 2 2";
    assert_eq!(guess_image_format(&pnm), "image/x-portable-anymap");
    assert_eq!(guess_image_format(b"not an image"), "unknown");
    assert_eq!(guess_image_format(&[]), "unknown");
}

#[test]
fn base64_of_known_bytes() {
    assert_eq!(base64_encode(&[1, 2, 3]), "AQID");
    assert_eq!(base64_encode(b"hello"), "aGVsbG8=");
    assert_eq!(base64_encode(&[]), "");
}

#[test]
fn image_type_and_base64_pairs_the_two() {
    let (mime, data) = image_type_and_base64(&PNG_MAGIC);
    assert_eq!(mime, "image/png");
    assert_eq!(data, "iVBORw0KGgo=");
}

#[test]
fn image_content_puts_text_first_then_inline_data() {
    let c = image_content(&PNG_MAGIC, "what is this".to_string());
    assert_eq!(c.parts.len(), 2);
    match &c.parts[0] {
        Part::Text(s) => assert_eq!(s, "what is this"),
        _ => panic!("the text part must come first"),
    }
    match &c.parts[1] {
        Part::InlineData { mime_type, data } => {
            assert_eq!(mime_type, "image/png");
            assert_eq!(data, "iVBORw0KGgo=");
        },
        _ => panic!("the image part must come second"),
    }
}
