use vstd::prelude::*;

verus! {

/// The type of encoding that was detected for "text" data, or `BINARY` for "binary" data.
#[allow(non_camel_case_types)]
#[derive(Copy, Clone, Debug, PartialEq, Eq, Structural)]
pub enum ContentType {
    /// "binary" data
    BINARY,
    /// UTF-8 encoded text
    UTF_8,
    /// UTF-8 encoded text that starts with a byte order mark
    UTF_8_BOM,
    /// UTF-16 encoded text, little endian
    UTF_16LE,
    /// UTF-16 encoded text, big endian
    UTF_16BE,
    /// UTF-32 encoded text, little endian
    UTF_32LE,
    /// UTF-32 encoded text, big endian
    UTF_32BE,
}

impl ContentType {
    /// Whether this content type stands for binary data.
    pub open spec fn spec_is_binary(self) -> bool {
        self == ContentType::BINARY
    }

    /// Whether this content type stands for text in some encoding.
    pub open spec fn spec_is_text(self) -> bool {
        !self.spec_is_binary()
    }

    /// The human-readable name of each content type.
    pub open spec fn spec_name(self) -> Seq<char> {
        match self {
            ContentType::BINARY => "binary"@,
            ContentType::UTF_8 => "UTF-8"@,
            ContentType::UTF_8_BOM => "UTF-8-BOM"@,
            ContentType::UTF_16LE => "UTF-16LE"@,
            ContentType::UTF_16BE => "UTF-16BE"@,
            ContentType::UTF_32LE => "UTF-32LE"@,
            ContentType::UTF_32BE => "UTF-32BE"@,
        }
    }

    /// Returns `true` if the content type is `BINARY`.
    pub fn is_binary(self) -> (r: bool)
        ensures
            r == self.spec_is_binary(),
    {
        self == ContentType::BINARY
    }

    /// Returns `true` if the content type is __not__ `BINARY`.
    pub fn is_text(self) -> (r: bool)
        ensures
            r == self.spec_is_text(),
    {
        !self.is_binary()
    }

    /// The name under which the content type is reported to people, e.g. `"UTF-16LE"` or
    /// `"binary"`.
    pub fn name(self) -> (r: &'static str)
        ensures
            r@ == self.spec_name(),
    {
        match self {
            ContentType::BINARY => "binary",
            ContentType::UTF_8 => "UTF-8",
            ContentType::UTF_8_BOM => "UTF-8-BOM",
            ContentType::UTF_16LE => "UTF-16LE",
            ContentType::UTF_16BE => "UTF-16BE",
            ContentType::UTF_32LE => "UTF-32LE",
            ContentType::UTF_32BE => "UTF-32BE",
        }
    }
}

/// Every content type is either binary or text, never both.
pub proof fn lemma_binary_iff_not_text(x: ContentType)
    ensures
        x.spec_is_binary() == !x.spec_is_text(),
{
}

} // verus!
