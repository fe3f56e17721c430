//! Git object identifiers.

use crate::error::DomainError;
use crate::outside::{decode_hex, encode_hex};
#[allow(unused_imports)]
use crate::outside::{hex_bytes, hex_digit, hex_text, hex_value, is_hex_text};
use crate::text::bytes_equal;
use vstd::prelude::*;

verus! {

/// The hash function that names a repository's objects.
#[derive(Clone, Copy, Debug, PartialEq, Eq, PartialOrd, Ord, Hash, Structural)]
pub enum ObjectFormat {
    Sha1,
    Sha256,
}

impl ObjectFormat {
    /// The width of an identifier in bytes.
    pub open spec fn width(self) -> nat {
        match self {
            ObjectFormat::Sha1 => 20,
            ObjectFormat::Sha256 => 32,
        }
    }

    /// The width of an identifier in bytes.
    pub fn byte_len(self) -> (r: usize)
        ensures
            r == self.width(),
    {
        match self {
            ObjectFormat::Sha1 => 20,
            ObjectFormat::Sha256 => 32,
        }
    }
}

/// What a `GitOid` denotes: a format and bytes.
#[verifier::ext_equal]
pub struct GitOidView {
    pub format: ObjectFormat,
    pub bytes: Seq<u8>,
}

/// A Git object identifier.
#[derive(Clone, Debug, PartialEq, Eq, PartialOrd, Ord, Hash)]
pub struct GitOid {
    pub format: ObjectFormat,
    bytes: Vec<u8>,
}

impl View for GitOid {
    type V = GitOidView;

    closed spec fn view(&self) -> GitOidView {
        GitOidView { format: self.format, bytes: self.bytes@ }
    }
}

/// The identifiers that a sequence of `GitOid` values denotes.
pub open spec fn oid_views(oids: Seq<GitOid>) -> Seq<GitOidView> {
    oids.map_values(|oid: GitOid| oid@)
}

impl GitOidView {
    /// The identifier has as many bytes as its format.
    pub open spec fn wf(self) -> bool {
        self.bytes.len() == self.format.width()
    }

    /// The identifier in hexadecimal notation.
    pub open spec fn hex(self) -> Seq<char> {
        hex_text(self.bytes)
    }
}

/// The format whose hexadecimal notation has the given number of digits.
pub open spec fn format_of_hex_len(len: nat) -> Option<ObjectFormat> {
    if len == 40 {
        Some(ObjectFormat::Sha1)
    } else if len == 64 {
        Some(ObjectFormat::Sha256)
    } else {
        None
    }
}

/// The identifier that a text denotes, if any: 40 or 64 hexadecimal digits.
pub open spec fn oid_of_hex(text: Seq<char>) -> Option<GitOidView> {
    match format_of_hex_len(text.len()) {
        Some(format) => if is_hex_text(text) {
            Some(GitOidView { format, bytes: hex_bytes(text) })
        } else {
            None
        },
        None => None,
    }
}

impl GitOid {
    /// The identifier has as many bytes as its format. One that was read from a document
    /// may have any number.
    pub open spec fn wf(self) -> bool {
        self@.wf()
    }

    /// Makes an identifier of bytes, which must be as many as the format has.
    pub fn new(format: ObjectFormat, bytes: Vec<u8>) -> (r: Result<GitOid, DomainError>)
        ensures
            r is Ok <==> bytes@.len() == format.width(),
            r matches Ok(oid) ==> oid.wf() && oid@ == (GitOidView {
                format,
                bytes: bytes@,
            }),
            r matches Err(error) ==> error == (DomainError::InvalidOidLength {
                expected: format.width() as usize,
                actual: bytes@.len() as usize,
            }),
    {
        if bytes.len() != format.byte_len() {
            return Err(
                DomainError::InvalidOidLength { expected: format.byte_len(), actual: bytes.len() },
            );
        }
        Ok(GitOid { format, bytes })
    }

    /// The identifier of a format and bytes as they stand in a document.
    pub(crate) fn from_parts(format: ObjectFormat, bytes: Vec<u8>) -> (r: GitOid)
        ensures
            r@ == (GitOidView { format, bytes: bytes@ }),
    {
        GitOid { format, bytes }
    }

    /// Reads hexadecimal notation; its length tells the format.
    pub fn from_hex(value: &str) -> (r: Result<GitOid, DomainError>)
        ensures
            r is Ok <==> oid_of_hex(value@) is Some,
            r matches Ok(oid) ==> oid.wf() && Some(oid@) == oid_of_hex(value@),
            ({
                let width = vstd::utf8::encode_utf8(value@).len();
                r matches Err(error) ==> match format_of_hex_len(width) {
                    None => error == (DomainError::InvalidOidLength {
                        expected: 40,
                        actual: width as usize,
                    }),
                    Some(_) => error matches DomainError::InvalidOid(text) && text@ == value@,
                }
            }),
    {
        proof {
            if is_hex_text(value@) {
                lemma_hex_text_is_ascii(value@);
            }
        }
        let format = match value.as_bytes().len() {
            40 => ObjectFormat::Sha1,
            64 => ObjectFormat::Sha256,
            actual => {
                return Err(DomainError::InvalidOidLength { expected: 40, actual });
            },
        };
        match decode_hex(value) {
            Some(bytes) => GitOid::new(format, bytes),
            None => Err(DomainError::InvalidOid(value.to_owned())),
        }
    }

    /// The raw bytes.
    pub fn as_bytes(&self) -> (r: &[u8])
        ensures
            r@ == self@.bytes,
    {
        self.bytes.as_slice()
    }

    /// The identifier in hexadecimal notation.
    pub fn to_hex(&self) -> (r: String)
        ensures
            r@ == self@.hex(),
    {
        encode_hex(self.bytes.as_slice())
    }

    /// The first ten hexadecimal digits.
    pub fn short(&self) -> (r: String)
        requires
            self.wf(),
        ensures
            r@ == self@.hex().take(10),
    {
        let full = self.to_hex();
        proof {
            lemma_hex_notation(self@.bytes);
            lemma_hex_text_is_ascii(full@);
        }
        let short = full.as_str().substring_ascii(0, 10).to_owned();
        assert(short@ =~= self@.hex().take(10));
        short
    }

    /// The format of the identifier.
    pub fn object_format(&self) -> (r: ObjectFormat)
        ensures
            r == self@.format,
    {
        self.format
    }

    /// Whether two identifiers are the same.
    pub fn same(&self, other: &GitOid) -> (r: bool)
        ensures
            r == (self@ == other@),
    {
        let r = self.format == other.format && bytes_equal(
            self.bytes.as_slice(),
            other.bytes.as_slice(),
        );
        assert(r ==> self@ =~= other@);
        r
    }

    /// A copy of the identifier.
    pub fn duplicate(&self) -> (r: GitOid)
        ensures
            r@ == self@,
    {
        let bytes = crate::text::copy_range(self.bytes.as_slice(), 0, self.bytes.len());
        assert(bytes@ =~= self.bytes@);
        GitOid { format: self.format, bytes }
    }
}

/// Hexadecimal digits are ASCII, so a text of them has as many bytes as characters.
proof fn lemma_hex_text_is_ascii(text: Seq<char>)
    requires
        forall|i: int| 0 <= i < text.len() ==> #[trigger] hex_value(text[i]) is Some,
    ensures
        vstd::utf8::is_ascii_chars(text),
        vstd::utf8::encode_utf8(text).len() == text.len(),
{
    assert forall|i: int| 0 <= i < text.len() implies '\0' <= #[trigger] text[i]
        <= '\u{7f}' by {
        assert(hex_value(text[i]) is Some);
    }
    vstd::utf8::is_ascii_chars_encode_utf8(text);
}

/// Hexadecimal notation consists of hexadecimal digits and reads back as the bytes.
pub proof fn lemma_hex_notation(bytes: Seq<u8>)
    ensures
        is_hex_text(hex_text(bytes)),
        hex_bytes(hex_text(bytes)) == bytes,
        hex_text(bytes).len() == 2 * bytes.len(),
{
    let text = hex_text(bytes);
    assert forall|i: int| 0 <= i < text.len() implies #[trigger] hex_value(text[i]) is Some by {
        let b = bytes[i / 2] as int;
        assert(0 <= b / 16 < 16);
        assert(0 <= b % 16 < 16);
    }
    assert forall|i: int| 0 <= i < bytes.len() implies hex_bytes(text)[i] == bytes[i] by {
        let b = bytes[i] as int;
        assert((2 * i) / 2 == i && (2 * i) % 2 == 0);
        assert((2 * i + 1) / 2 == i && (2 * i + 1) % 2 == 1);
        assert(text[2 * i] == hex_digit(b / 16));
        assert(text[2 * i + 1] == hex_digit(b % 16));
        assert(hex_value(hex_digit(b / 16)) == Some(b / 16));
        assert(hex_value(hex_digit(b % 16)) == Some(b % 16));
    }
    assert(hex_bytes(text) =~= bytes);
}

/// Reading the hexadecimal notation of a well-formed identifier gives the identifier back.
pub proof fn law_hex_round_trip(oid: GitOidView)
    requires
        oid.wf(),
    ensures
        oid_of_hex(oid.hex()) == Some(oid),
{
    lemma_hex_notation(oid.bytes);
    assert(oid_of_hex(oid.hex())->0 =~= oid);
}

} // verus!
