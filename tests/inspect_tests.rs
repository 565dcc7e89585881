use content_inspector::inspect;
use content_inspector::ContentType::{
    BINARY, UTF_16BE, UTF_16LE, UTF_32BE, UTF_32LE, UTF_8, UTF_8_BOM,
};

fn utf16le(text: &str) -> Vec<u8> {
    let mut out = vec![0xFF, 0xFE];
    for unit in text.encode_utf16() {
        out.extend_from_slice(&unit.to_le_bytes());
    }
    out
}

fn utf16be(text: &str) -> Vec<u8> {
    let mut out = vec![0xFE, 0xFF];
    for unit in text.encode_utf16() {
        out.extend_from_slice(&unit.to_be_bytes());
    }
    out
}

fn utf32le(text: &str) -> Vec<u8> {
    let mut out = vec![0xFF, 0xFE, 0x00, 0x00];
    for c in text.chars() {
        out.extend_from_slice(&(c as u32).to_le_bytes());
    }
    out
}

fn utf32be(text: &str) -> Vec<u8> {
    let mut out = vec![0x00, 0x00, 0xFE, 0xFF];
    for c in text.chars() {
        out.extend_from_slice(&(c as u32).to_be_bytes());
    }
    out
}

const SAMPLE: &str = "A sample text file\nwith umlauts äöü, a snowman ☃ and an emoji 🦀\n";

#[test]
fn test_empty_buffer_utf_8() {
    assert_eq!(UTF_8, inspect(b""));
}

#[test]
fn test_text_simple() {
    assert_eq!(UTF_8, inspect("Simple UTF-8 string â˜”".as_bytes()));
}

#[test]
fn test_text_utf8() {
    assert_eq!(UTF_8, inspect(SAMPLE.as_bytes()));
}

#[test]
fn test_text_utf8_bom() {
    let mut buffer = vec![0xEF, 0xBB, 0xBF];
    buffer.extend_from_slice(SAMPLE.as_bytes());
    assert_eq!(UTF_8_BOM, inspect(&buffer));
}

#[test]
fn test_text_utf16le() {
    assert_eq!(UTF_16LE, inspect(&utf16le(SAMPLE)));
}

#[test]
fn test_text_utf16be() {
    assert_eq!(UTF_16BE, inspect(&utf16be(SAMPLE)));
}

#[test]
fn test_text_utf32le() {
    assert_eq!(UTF_32LE, inspect(&utf32le(SAMPLE)));
}

#[test]
fn test_text_utf32be() {
    assert_eq!(UTF_32BE, inspect(&utf32be(SAMPLE)));
}

#[test]
fn test_png() {
    let png: &[u8] = b"\x89PNG\r\n\x1a\n\x00\x00\x00\rIHDR\x00\x00\x00\x10\x00\x00\x00\x10\x08\x06";
    assert_eq!(BINARY, inspect(png));
}

#[test]
fn test_jpg() {
    let jpg: &[u8] = b"\xFF\xD8\xFF\xE0\x00\x10JFIF\x00\x01\x01\x00\x00\x01\x00\x01\x00\x00";
    assert_eq!(BINARY, inspect(jpg));
}

#[test]
fn test_pdf() {
    let pdf: &[u8] = b"%PDF-1.5\n%\xB5\xB5\xB5\xB5\n1 0 obj\n<</Type/Catalog/Pages 2 0 R>>\nendobj\n";
    assert_eq!(BINARY, inspect(pdf));
}

#[test]
fn test_is_text() {
    assert!(UTF_8.is_text());
    assert!(UTF_32LE.is_text());
}

#[test]
fn test_is_binary() {
    assert!(BINARY.is_binary());
}
