//! Fast guessing of whether a byte buffer holds "binary" data or text in one of a few Unicode
//! encodings.
//!
//! The heuristic looks for a byte order mark at the start of the buffer, then for a zero byte
//! within a bounded window at its start, then for a few magic numbers of binary formats that
//! rarely hold an early zero byte. A buffer that none of these flags is taken to be UTF-8 text.
//! A reported encoding is only a plausible guess: the buffer is never decoded.
mod content_type;
mod classify;

pub use content_type::{ContentType, lemma_binary_iff_not_text};
pub use classify::{
    bom_match, bom_match_from, byte_order_marks, content_type_of, has_magic_number, has_no_bom,
    has_prefix, lemma_bom_decides, lemma_no_bom_no_match, lemma_pdf_is_binary,
    lemma_plain_text_is_utf8, lemma_utf32le_before_utf16le, lemma_zero_byte_is_binary,
    inspect, magic_numbers, scan_len, zero_in_window, MAX_SCAN_SIZE,
};
