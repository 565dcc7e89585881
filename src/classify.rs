use vstd::prelude::*;
use vstd::slice::slice_subrange;

use crate::content_type::ContentType;

verus! {

/// Number of leading bytes in which a zero byte marks a buffer as binary.
pub const MAX_SCAN_SIZE: usize = 1024;

/// Relies on memchr::memchr: the index of the first occurrence of `needle` in `haystack`, or
/// `None` where it does not occur.
pub assume_specification[ memchr::memchr ](needle: u8, haystack: &[u8]) -> (r: Option<usize>)
    ensures
        match r {
            Some(i) => i < haystack@.len() && haystack@[i as int] == needle && forall|j: int|
                0 <= j < i ==> haystack@[j] != needle,
            None => forall|j: int| 0 <= j < haystack@.len() ==> haystack@[j] != needle,
        },
;

/// Common byte order marks with the encodings they announce, in the order in which they are
/// tried. The UTF-32 marks come before the UTF-16 ones: the little-endian UTF-16 mark is a
/// prefix of the little-endian UTF-32 one.
pub open spec fn byte_order_marks() -> Seq<(Seq<u8>, ContentType)> {
    seq![
        (seq![0xEFu8, 0xBBu8, 0xBFu8], ContentType::UTF_8_BOM),
        (seq![0x00u8, 0x00u8, 0xFEu8, 0xFFu8], ContentType::UTF_32BE),
        (seq![0xFFu8, 0xFEu8, 0x00u8, 0x00u8], ContentType::UTF_32LE),
        (seq![0xFEu8, 0xFFu8], ContentType::UTF_16BE),
        (seq![0xFFu8, 0xFEu8], ContentType::UTF_16LE),
    ]
}

/// Magic numbers of binary formats that could otherwise pass for text: PDF and PNG.
pub open spec fn magic_numbers() -> Seq<Seq<u8>> {
    seq![seq![0x25u8, 0x50u8, 0x44u8, 0x46u8], seq![0x89u8, 0x50u8, 0x4Eu8, 0x47u8]]
}

/// `buffer` begins with the bytes of `prefix`.
pub open spec fn has_prefix(buffer: Seq<u8>, prefix: Seq<u8>) -> bool {
    prefix.len() <= buffer.len() && buffer.take(prefix.len() as int) == prefix
}

/// The encoding of the first byte order mark, from index `k` of the table on, that `buffer`
/// begins with.
pub open spec fn bom_match_from(buffer: Seq<u8>, k: int) -> Option<ContentType>
    decreases byte_order_marks().len() - k,
{
    if k < 0 || k >= byte_order_marks().len() {
        None
    } else if has_prefix(buffer, byte_order_marks()[k].0) {
        Some(byte_order_marks()[k].1)
    } else {
        bom_match_from(buffer, k + 1)
    }
}

/// The encoding of the first byte order mark in the table that `buffer` begins with.
pub open spec fn bom_match(buffer: Seq<u8>) -> Option<ContentType> {
    bom_match_from(buffer, 0)
}

/// The length of the window at the start of `buffer` that is searched for zero bytes.
pub open spec fn scan_len(buffer: Seq<u8>) -> int {
    if buffer.len() < MAX_SCAN_SIZE {
        buffer.len() as int
    } else {
        MAX_SCAN_SIZE as int
    }
}

/// A zero byte occurs within the scan window of `buffer`.
pub open spec fn zero_in_window(buffer: Seq<u8>) -> bool {
    exists|i: int| 0 <= i < scan_len(buffer) && buffer[i] == 0
}

/// `buffer` begins with one of the magic numbers.
pub open spec fn has_magic_number(buffer: Seq<u8>) -> bool {
    exists|k: int| 0 <= k < magic_numbers().len() && has_prefix(buffer, #[trigger] magic_numbers()[k])
}

/// The content type of `buffer`: the encoding of its byte order mark if it has one; else
/// binary if a zero byte occurs in its scan window or it begins with a magic number; else UTF-8.
pub open spec fn content_type_of(buffer: Seq<u8>) -> ContentType {
    match bom_match(buffer) {
        Some(t) => t,
        None => if zero_in_window(buffer) || has_magic_number(buffer) {
            ContentType::BINARY
        } else {
            ContentType::UTF_8
        },
    }
}

/// `buffer` begins with none of the byte order marks.
pub open spec fn has_no_bom(buffer: Seq<u8>) -> bool {
    forall|k: int|
        0 <= k < byte_order_marks().len() ==> !has_prefix(buffer, #[trigger] byte_order_marks()[k].0)
}

/// A buffer that begins with none of the byte order marks gets its content type from the zero
/// byte scan and the magic numbers.
pub proof fn lemma_no_bom_no_match(buffer: Seq<u8>)
    requires
        has_no_bom(buffer),
    ensures
        bom_match(buffer) is None,
{
    reveal_with_fuel(bom_match_from, 6);
    assert(!has_prefix(buffer, byte_order_marks()[0].0));
    assert(!has_prefix(buffer, byte_order_marks()[1].0));
    assert(!has_prefix(buffer, byte_order_marks()[2].0));
    assert(!has_prefix(buffer, byte_order_marks()[3].0));
    assert(!has_prefix(buffer, byte_order_marks()[4].0));
}

/// A buffer that begins with a byte order mark of the table, and with no mark listed before
/// it, has the encoding of that mark, whatever bytes (zero bytes included) follow it.
pub proof fn lemma_bom_decides(buffer: Seq<u8>, k: int)
    requires
        0 <= k < byte_order_marks().len(),
        has_prefix(buffer, byte_order_marks()[k].0),
        forall|j: int| 0 <= j < k ==> !has_prefix(buffer, #[trigger] byte_order_marks()[j].0),
    ensures
        content_type_of(buffer) == byte_order_marks()[k].1,
{
    reveal_with_fuel(bom_match_from, 6);
    assert(k > 0 ==> !has_prefix(buffer, byte_order_marks()[0].0));
    assert(k > 1 ==> !has_prefix(buffer, byte_order_marks()[1].0));
    assert(k > 2 ==> !has_prefix(buffer, byte_order_marks()[2].0));
    assert(k > 3 ==> !has_prefix(buffer, byte_order_marks()[3].0));
}

/// A buffer with no byte order mark and a zero byte within its scan window is binary.
pub proof fn lemma_zero_byte_is_binary(buffer: Seq<u8>, i: int)
    requires
        has_no_bom(buffer),
        0 <= i < scan_len(buffer),
        buffer[i] == 0,
    ensures
        content_type_of(buffer) == ContentType::BINARY,
{
    lemma_no_bom_no_match(buffer);
}

/// A buffer that begins with the PDF magic number `%PDF` and has no zero byte in its scan
/// window is binary.
pub proof fn lemma_pdf_is_binary(buffer: Seq<u8>)
    requires
        has_prefix(buffer, seq![0x25u8, 0x50u8, 0x44u8, 0x46u8]),
        !zero_in_window(buffer),
    ensures
        content_type_of(buffer) == ContentType::BINARY,
{
    assert(buffer[0] == buffer.take(4)[0]);
    assert forall|k: int| 0 <= k < byte_order_marks().len() implies !has_prefix(
        buffer,
        #[trigger] byte_order_marks()[k].0,
    ) by {
        let bom = byte_order_marks()[k].0;
        assert(bom.len() >= 2);
        if has_prefix(buffer, bom) {
            assert(buffer.take(bom.len() as int)[0] == bom[0]);
        }
    }
    lemma_no_bom_no_match(buffer);
    assert(magic_numbers()[0] =~= seq![0x25u8, 0x50u8, 0x44u8, 0x46u8]);
}

/// A buffer with no zero byte, no byte order mark and no magic number, plain ASCII or UTF-8
/// text for instance, is UTF-8.
pub proof fn lemma_plain_text_is_utf8(buffer: Seq<u8>)
    requires
        forall|i: int| 0 <= i < buffer.len() ==> buffer[i] != 0,
        has_no_bom(buffer),
        forall|k: int|
            0 <= k < magic_numbers().len() ==> !has_prefix(buffer, #[trigger] magic_numbers()[k]),
    ensures
        content_type_of(buffer) == ContentType::UTF_8,
{
    lemma_no_bom_no_match(buffer);
}

/// A buffer that begins with the little-endian UTF-32 mark `FF FE 00 00` is UTF-32LE, not
/// UTF-16LE, though it also begins with the little-endian UTF-16 mark `FF FE`.
pub proof fn lemma_utf32le_before_utf16le(buffer: Seq<u8>)
    requires
        has_prefix(buffer, seq![0xFFu8, 0xFEu8, 0x00u8, 0x00u8]),
    ensures
        content_type_of(buffer) == ContentType::UTF_32LE,
        has_prefix(buffer, seq![0xFFu8, 0xFEu8]),
{
    let b = buffer.take(4);
    assert(buffer[0] == b[0] && buffer[1] == b[1] && buffer[2] == b[2] && buffer[3] == b[3]);
    assert(!has_prefix(buffer, byte_order_marks()[0].0)) by {
        if has_prefix(buffer, byte_order_marks()[0].0) {
            assert(buffer.take(3)[0] == 0xEFu8);
        }
    }
    assert(!has_prefix(buffer, byte_order_marks()[1].0)) by {
        if has_prefix(buffer, byte_order_marks()[1].0) {
            assert(buffer.take(4)[0] == 0x00u8);
        }
    }
    assert(byte_order_marks()[2].0 =~= buffer.take(4));
    lemma_bom_decides(buffer, 2);
    assert(buffer.take(2) =~= seq![0xFFu8, 0xFEu8]);
}

/// Whether `buffer` begins with the bytes of `prefix`.
fn starts_with(buffer: &[u8], prefix: &[u8]) -> (r: bool)
    ensures
        r == has_prefix(buffer@, prefix@),
{
    if prefix.len() > buffer.len() {
        return false;
    }
    let mut i: usize = 0;
    while i < prefix.len()
        invariant
            i <= prefix@.len() <= buffer@.len(),
            forall|j: int| 0 <= j < i ==> buffer@[j] == prefix@[j],
        decreases prefix@.len() - i,
    {
        if buffer[i] != prefix[i] {
            assert(buffer@.take(prefix@.len() as int)[i as int] != prefix@[i as int]);
            return false;
        }
        i = i + 1;
    }
    assert(buffer@.take(prefix@.len() as int) =~= prefix@);
    true
}

/// The byte order marks of `byte_order_marks`, in the same order.
fn byte_order_mark_table() -> (r: [(&'static [u8], ContentType); 5])
    ensures
        forall|k: int|
            0 <= k < 5 ==> (#[trigger] r@[k]).0@ == byte_order_marks()[k].0 && r@[k].1
                == byte_order_marks()[k].1,
{
    let r: [(&'static [u8], ContentType); 5] = [
        (&[0xEF, 0xBB, 0xBF], ContentType::UTF_8_BOM),
        (&[0x00, 0x00, 0xFE, 0xFF], ContentType::UTF_32BE),
        (&[0xFF, 0xFE, 0x00, 0x00], ContentType::UTF_32LE),
        (&[0xFE, 0xFF], ContentType::UTF_16BE),
        (&[0xFF, 0xFE], ContentType::UTF_16LE),
    ];
    assert(r@[0].0@ =~= byte_order_marks()[0].0);
    r
}

/// The magic numbers of `magic_numbers`, in the same order.
fn magic_number_table() -> (r: [&'static [u8]; 2])
    ensures
        forall|k: int| 0 <= k < 2 ==> (#[trigger] r@[k])@ == magic_numbers()[k],
{
    let r: [&'static [u8]; 2] = [&[0x25, 0x50, 0x44, 0x46], &[0x89, 0x50, 0x4E, 0x47]];
    assert(r@[0]@ =~= magic_numbers()[0]);
    assert(r@[1]@ =~= magic_numbers()[1]);
    r
}

/// Tries to determine the type of content in `buffer`.
///
/// A byte order mark at the start decides the encoding. Failing that, a zero byte among the
/// first `MAX_SCAN_SIZE` bytes, or a magic number of a binary format at the start, makes the
/// buffer `BINARY`. Anything else, the empty buffer included, is reported as `UTF_8`.
pub fn inspect(buffer: &[u8]) -> (r: ContentType)
    ensures
        r == content_type_of(buffer@),
        buffer@.len() == 0 ==> r == ContentType::UTF_8,
{
    let boms = byte_order_mark_table();
    let mut k: usize = 0;
    while k < 5
        invariant
            k <= 5,
            bom_match(buffer@) == bom_match_from(buffer@, k as int),
            forall|j: int|
                0 <= j < 5 ==> (#[trigger] boms@[j]).0@ == byte_order_marks()[j].0 && boms@[j].1
                    == byte_order_marks()[j].1,
        decreases 5 - k,
    {
        let (bom, content_type) = boms[k];
        if starts_with(buffer, bom) {
            return content_type;
        }
        k = k + 1;
    }
    assert(bom_match(buffer@) is None);

    let scan_size: usize = if buffer.len() < MAX_SCAN_SIZE {
        buffer.len()
    } else {
        MAX_SCAN_SIZE
    };
    let window = slice_subrange(buffer, 0, scan_size);
    if memchr::memchr(0x00, window).is_some() {
        return ContentType::BINARY;
    }
    assert forall|i: int| 0 <= i < scan_len(buffer@) implies buffer@[i] != 0 by {
        assert(window@[i] == buffer@[i]);
    }

    let magics = magic_number_table();
    let mut m: usize = 0;
    while m < 2
        invariant
            m <= 2,
            bom_match(buffer@) is None,
            forall|j: int| 0 <= j < 2 ==> (#[trigger] magics@[j])@ == magic_numbers()[j],
            forall|j: int| 0 <= j < m ==> !has_prefix(buffer@, #[trigger] magic_numbers()[j]),
        decreases 2 - m,
    {
        let magic = magics[m];
        assert(magic@ == magic_numbers()[m as int]) by {
            assert(magic == magics@[m as int]);
        }
        if starts_with(buffer, magic) {
            assert(has_prefix(buffer@, magic_numbers()[m as int]));
            return ContentType::BINARY;
        }
        m = m + 1;
    }
    ContentType::UTF_8
}

} // verus!
