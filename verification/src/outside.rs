//! Calls into other crates. Each function here is a thin wrapper whose contract
//! is believed, not proved; its comment names the function that it stands for.

use crate::document::{Document, Tree};
use vstd::prelude::*;

verus! {

/// The lower-case hexadecimal digit of a half byte.
pub open spec fn hex_digit(n: int) -> char {
    if n < 10 {
        ('0' as u32 + n) as char
    } else {
        ('a' as u32 + (n - 10)) as char
    }
}

/// The lower-case hexadecimal notation of bytes: two digits each, high half first.
pub open spec fn hex_text(bytes: Seq<u8>) -> Seq<char> {
    Seq::new(
        2 * bytes.len(),
        |i: int|
            if i % 2 == 0 {
                hex_digit(bytes[i / 2] as int / 16)
            } else {
                hex_digit(bytes[i / 2] as int % 16)
            },
    )
}

/// The value of a hexadecimal digit of either case.
pub open spec fn hex_value(c: char) -> Option<int> {
    if '0' <= c <= '9' {
        Some(c as int - '0' as int)
    } else if 'a' <= c <= 'f' {
        Some(c as int - 'a' as int + 10)
    } else if 'A' <= c <= 'F' {
        Some(c as int - 'A' as int + 10)
    } else {
        None
    }
}

/// Whether the text is hexadecimal notation: digits only, and an even number of them.
pub open spec fn is_hex_text(text: Seq<char>) -> bool {
    &&& text.len() % 2 == 0
    &&& forall|i: int| 0 <= i < text.len() ==> #[trigger] hex_value(text[i]) is Some
}

/// The bytes that hexadecimal notation stands for.
pub open spec fn hex_bytes(text: Seq<char>) -> Seq<u8> {
    Seq::new(
        text.len() / 2,
        |i: int| (hex_value(text[2 * i])->0 * 16 + hex_value(text[2 * i + 1])->0) as u8,
    )
}

/// `hex::encode`: two lower-case digits for each byte.
#[verifier::external_body]
pub(crate) fn encode_hex(bytes: &[u8]) -> (r: String)
    ensures
        r@ == hex_text(bytes@),
{
    hex::encode(bytes)
}

/// `hex::decode`: accepts digits of either case, and refuses an odd number of
/// them and any other character.
#[verifier::external_body]
pub(crate) fn decode_hex(text: &str) -> (r: Option<Vec<u8>>)
    ensures
        r is Some <==> is_hex_text(text@),
        r matches Some(bytes) ==> bytes@ == hex_bytes(text@),
{
    hex::decode(text).ok()
}

/// The BLAKE3 digest of the input, in lower-case hexadecimal notation.
pub uninterp spec fn blake3_hex(input: Seq<u8>) -> Seq<char>;

/// `blake3::hash` and `blake3::Hash::to_hex`: the digest is a function of the
/// input bytes alone, and its 32 bytes are written with two digits each.
#[verifier::external_body]
pub(crate) fn hash_hex(input: &[u8]) -> (r: String)
    ensures
        r@ == blake3_hex(input@),
        r@.len() == 64,
{
    blake3::hash(input).to_hex().to_string()
}

/// A BLAKE3 digest in the making.
#[verifier::external_type_specification]
#[verifier::external_body]
pub struct ExHasher(blake3::Hasher);

/// The bytes that went into a hasher so far.
pub uninterp spec fn hashed(hasher: blake3::Hasher) -> Seq<u8>;

/// `blake3::Hasher::new`: nothing has gone in.
#[verifier::external_body]
pub(crate) fn new_hasher() -> (r: blake3::Hasher)
    ensures
        hashed(r) == Seq::<u8>::empty(),
{
    blake3::Hasher::new()
}

/// `blake3::Hasher::update`: the bytes go in after those before them.
#[verifier::external_body]
pub(crate) fn update_hasher(hasher: &mut blake3::Hasher, bytes: &[u8])
    ensures
        hashed(*final(hasher)) == hashed(*old(hasher)) + bytes@,
{
    hasher.update(bytes);
}

/// `blake3::Hasher::finalize` and `blake3::Hash::to_hex`: the digest of all that went
/// in, the same as that of one hash over it, and as long.
#[verifier::external_body]
pub(crate) fn finish_hasher(hasher: &blake3::Hasher) -> (r: String)
    ensures
        r@ == blake3_hex(hashed(*hasher)),
        r@.len() == 64,
{
    hasher.finalize().to_hex().to_string()
}

/// What a text in base64 notation denotes; `None` where it is malformed.
pub uninterp spec fn base64_bytes(text: Seq<char>) -> Option<Seq<u8>>;

/// Decoding by `base64::engine::general_purpose::STANDARD`: the result depends on the
/// text alone. Nothing is said of the wording of the error.
#[verifier::external_body]
pub(crate) fn decode_base64(text: &str) -> (r: Result<Vec<u8>, String>)
    ensures
        r is Ok <==> base64_bytes(text@) is Some,
        r matches Ok(bytes) ==> base64_bytes(text@) == Some(bytes@),
{
    base64::Engine::decode(&base64::engine::general_purpose::STANDARD, text).map_err(
        |error| error.to_string(),
    )
}

/// The bytes in base64 notation.
pub uninterp spec fn base64_text(bytes: Seq<u8>) -> Seq<char>;

/// Encoding by `base64::engine::general_purpose::STANDARD`: the notation depends on the
/// bytes alone, and decoding it gives the bytes back.
#[verifier::external_body]
pub(crate) fn encode_base64(bytes: &[u8]) -> (r: String)
    ensures
        r@ == base64_text(bytes@),
        base64_bytes(r@) == Some(bytes@),
{
    base64::Engine::encode(&base64::engine::general_purpose::STANDARD, bytes)
}

/// `std::str::from_utf8`: accepts valid UTF-8 and nothing else. Nothing is said of the
/// wording of the error.
#[verifier::external_body]
pub(crate) fn decode_text(bytes: &[u8]) -> (r: Result<String, String>)
    ensures
        r is Ok <==> vstd::utf8::valid_utf8(bytes@),
        r matches Ok(text) ==> text@ == vstd::utf8::decode_utf8(bytes@),
{
    match std::str::from_utf8(bytes) {
        Ok(text) => Ok(text.to_owned()),
        Err(error) => Err(error.to_string()),
    }
}

/// Texts as a list of quoted texts, with what needs it escaped.
pub uninterp spec fn debug_text_of(items: Seq<Seq<char>>) -> Seq<char>;

/// The `Debug` notation of a `Vec<String>`: a function of the texts alone.
#[verifier::external_body]
pub(crate) fn debug_texts(items: &Vec<String>) -> (r: String)
    ensures
        r@ == debug_text_of(crate::text::texts(items@)),
{
    format!("{:?}", items)
}

/// The text of bytes, with replacement characters where they are not valid UTF-8.
pub uninterp spec fn lossy_text_of(bytes: Seq<u8>) -> Seq<char>;

/// `String::from_utf8_lossy`: the text depends on the bytes alone, and is what valid
/// UTF-8 denotes.
#[verifier::external_body]
pub(crate) fn lossy_text(bytes: &[u8]) -> (r: String)
    ensures
        r@ == lossy_text_of(bytes@),
        vstd::utf8::valid_utf8(bytes@) ==> r@ == vstd::utf8::decode_utf8(bytes@),
{
    String::from_utf8_lossy(bytes).into_owned()
}

/// The hyphenated lower-case notation of a UUID.
pub uninterp spec fn uuid_text(value: u128) -> Seq<char>;

/// The UUID that a text denotes, if any.
pub uninterp spec fn uuid_value(text: Seq<char>) -> Option<u128>;

/// `uuid::Uuid::from_u128` and its `Display`: the notation depends on the value
/// alone, and reading it back gives the value.
#[verifier::external_body]
pub(crate) fn format_uuid(value: u128) -> (r: String)
    ensures
        r@ == uuid_text(value),
        uuid_value(r@) == Some(value),
{
    uuid::Uuid::from_u128(value).to_string()
}

/// `uuid::Uuid::parse_str`: `None` stands for its error.
#[verifier::external_body]
pub(crate) fn parse_uuid(text: &str) -> (r: Option<u128>)
    ensures
        r == uuid_value(text@),
{
    uuid::Uuid::parse_str(text).ok().map(|value| value.as_u128())
}

/// A parsed TOML value.
#[verifier::external_type_specification]
#[verifier::external_body]
pub struct ExTomlValue(toml::Value);

/// The contents of a parsed TOML value.
pub uninterp spec fn toml_contents(value: toml::Value) -> Tree;

/// What a TOML text denotes; `None` where it is malformed.
pub uninterp spec fn toml_parsed(text: Seq<char>) -> Option<Tree>;

/// `toml::from_str` into a table: the result depends on the text alone. Nothing is
/// said of the wording of the error.
#[verifier::external_body]
pub(crate) fn parse_toml(text: &str) -> (r: Result<toml::Value, String>)
    ensures
        r is Ok <==> toml_parsed(text@) is Some,
        r matches Ok(value) ==> toml_parsed(text@) == Some(toml_contents(value)),
{
    match toml::from_str::<toml::Table>(text) {
        Ok(table) => Ok(toml::Value::Table(table)),
        Err(error) => Err(error.to_string()),
    }
}

/// Takes a `toml::Value` apart, variant by variant; floats and dates become `Other`.
#[verifier::external_body]
pub(crate) fn toml_document(value: toml::Value) -> (r: Document)
    ensures
        r@ == toml_contents(value),
{
    match value {
        toml::Value::String(text) => Document::Text(text),
        toml::Value::Integer(number) => Document::Integer(number.into()),
        toml::Value::Boolean(flag) => Document::Bool(flag),
        toml::Value::Array(items) => Document::List(items.into_iter().map(toml_document).collect()),
        toml::Value::Table(table) => Document::Table(
            table.into_iter().map(|(name, value)| (name, toml_document(value))).collect(),
        ),
        toml::Value::Float(_) | toml::Value::Datetime(_) => Document::Other,
    }
}

/// A parsed JSON value.
#[verifier::external_type_specification]
#[verifier::external_body]
pub struct ExJsonValue(serde_json::Value);

/// A JSON number.
#[verifier::external_type_specification]
#[verifier::external_body]
pub struct ExJsonNumber(serde_json::Number);

/// The notation of a JSON number.
pub uninterp spec fn number_text(number: serde_json::Number) -> Seq<char>;

/// `serde_json::Number::to_string`: the notation is a function of the number alone.
#[verifier::external_body]
pub(crate) fn write_number(number: &serde_json::Number) -> (r: String)
    ensures
        r@ == number_text(*number),
{
    number.to_string()
}

/// `serde_json::Number::clone`: the same number, with the same notation.
#[verifier::external_body]
pub(crate) fn copy_number(number: &serde_json::Number) -> (r: serde_json::Number)
    ensures
        number_text(r) == number_text(*number),
{
    number.clone()
}

/// The contents of a parsed JSON value.
pub uninterp spec fn json_contents(value: serde_json::Value) -> Tree;

/// What a JSON text denotes; `None` where it is malformed.
pub uninterp spec fn json_parsed(bytes: Seq<u8>) -> Option<Tree>;

/// `serde_json::from_slice` into a `serde_json::Value`: the result depends on the
/// bytes alone. Where an object gives a name more than once, the value keeps what came
/// last. Nothing is said of the wording of the error.
#[verifier::external_body]
pub(crate) fn parse_json(bytes: &[u8]) -> (r: Result<serde_json::Value, String>)
    ensures
        r is Ok <==> json_parsed(bytes@) is Some,
        r matches Ok(value) ==> json_parsed(bytes@) == Some(json_contents(value)),
{
    serde_json::from_slice::<serde_json::Value>(bytes).map_err(|error| error.to_string())
}

/// Takes a `serde_json::Value` apart, variant by variant; a number that
/// `serde_json::Number::as_i128` does not give is a decimal. Such a value always has a
/// notation: its objects have each name once, its whole numbers fit into 64 bits, and its
/// other numbers are floating point numbers, which are written with a point or an
/// exponent.
#[verifier::external_body]
pub(crate) fn json_document(value: serde_json::Value) -> (r: Document)
    ensures
        r@ == json_contents(value),
        r@.has_notation(),
{
    match value {
        serde_json::Value::Null => Document::Null,
        serde_json::Value::Bool(flag) => Document::Bool(flag),
        serde_json::Value::Number(number) => match number.as_i128() {
            Some(whole) => Document::Integer(whole),
            None => Document::Decimal(number),
        },
        serde_json::Value::String(text) => Document::Text(text),
        serde_json::Value::Array(items) => Document::List(
            items.into_iter().map(json_document).collect(),
        ),
        serde_json::Value::Object(table) => Document::Table(
            table.into_iter().map(|(name, value)| (name, json_document(value))).collect(),
        ),
    }
}

/// The JSON notation of contents, as bytes.
pub uninterp spec fn json_written(contents: Tree) -> Seq<u8>;

/// Builds a `serde_json::Value`, variant by variant. A table keeps its entries in
/// their order. A decimal is no whole number, which `serde_json` writes in digits alone.
#[verifier::external_body]
pub(crate) fn json_value(document: &Document) -> (r: serde_json::Value)
    requires
        document@.has_notation(),
    ensures
        json_contents(r) == document@,
{
    match document {
        Document::Null | Document::Other => serde_json::Value::Null,
        Document::Bool(flag) => serde_json::Value::Bool(*flag),
        Document::Integer(whole) => serde_json::Value::from(serde_json::Number::from_i128(*whole)),
        Document::Decimal(number) => serde_json::Value::Number(number.clone()),
        Document::Text(text) => serde_json::Value::String(text.clone()),
        Document::List(items) => serde_json::Value::Array(items.iter().map(json_value).collect()),
        Document::Table(entries) => serde_json::Value::Object(
            entries.iter().map(|(name, value)| (name.clone(), json_value(value))).collect(),
        ),
    }
}

/// `serde_json::to_vec` on a `serde_json::Value`: the notation depends on the contents
/// alone, it is UTF-8, and no character takes more than the six bytes of an escape.
/// Reading it back gives the contents if all numbers are whole and it nests no deeper
/// than the reader goes. Nothing is said of reading back other numbers.
#[verifier::external_body]
pub(crate) fn write_json(value: &serde_json::Value) -> (r: Vec<u8>)
    requires
        json_contents(*value).has_notation(),
    ensures
        r@ == json_written(json_contents(*value)),
        json_contents(*value).writable(127) ==> json_parsed(r@) == Some(json_contents(*value)),
        r@.len() <= json_contents(*value).size_bound(),
        vstd::utf8::valid_utf8(r@),
{
    serde_json::to_vec(value).unwrap_or_default()
}

/// A compiled glob.
#[verifier::external_type_specification]
#[verifier::external_body]
pub struct ExGlob(globset::Glob);

/// Globs on their way to a set.
#[verifier::external_type_specification]
#[verifier::external_body]
pub struct ExGlobSetBuilder(globset::GlobSetBuilder);

/// A set of globs that are matched together.
#[verifier::external_type_specification]
#[verifier::external_body]
pub struct ExGlobSet(globset::GlobSet);

/// A glob pattern with the options that it is compiled under.
pub struct GlobRule {
    pub pattern: Seq<char>,
    pub literal_separator: bool,
    pub backslash_escape: bool,
}

/// A pattern together with its options.
pub open spec fn rule_of(
    pattern: Seq<char>,
    literal_separator: bool,
    backslash_escape: bool,
) -> GlobRule {
    GlobRule { pattern, literal_separator, backslash_escape }
}

/// Why a glob does not compile; `None` where it does.
pub uninterp spec fn glob_fault(rule: GlobRule) -> Option<Seq<char>>;

/// Why compiled globs do not make a set; `None` where they do.
pub uninterp spec fn glob_set_fault(rules: Seq<GlobRule>) -> Option<Seq<char>>;

/// Whether a glob matches a path.
pub uninterp spec fn glob_matches(rule: GlobRule, path: Seq<char>) -> bool;

/// The pattern and options of a compiled glob.
pub uninterp spec fn glob_rule(glob: globset::Glob) -> GlobRule;

/// The globs that a builder holds.
pub uninterp spec fn builder_rules(builder: globset::GlobSetBuilder) -> Seq<GlobRule>;

/// The globs that a set holds.
pub uninterp spec fn set_rules(globs: globset::GlobSet) -> Seq<GlobRule>;

/// `globset::GlobBuilder::build` under two of its options: whether it succeeds, and
/// the message if not, depends on the pattern and the options alone.
#[verifier::external_body]
pub(crate) fn compile_glob(
    pattern: &str,
    literal_separator: bool,
    backslash_escape: bool,
) -> (r: Result<globset::Glob, String>)
    ensures
        r is Ok <==> glob_fault(
            rule_of(pattern@, literal_separator, backslash_escape),
        ) is None,
        r matches Ok(glob) ==> glob_rule(glob) == rule_of(
            pattern@,
            literal_separator,
            backslash_escape,
        ),
        r matches Err(message) ==> glob_fault(
            rule_of(pattern@, literal_separator, backslash_escape),
        ) == Some(message@),
{
    globset::GlobBuilder::new(pattern)
        .literal_separator(literal_separator)
        .backslash_escape(backslash_escape)
        .build()
        .map_err(|error| error.to_string())
}

/// `globset::GlobSetBuilder::new`: holds nothing.
#[verifier::external_body]
pub(crate) fn new_glob_builder() -> (r: globset::GlobSetBuilder)
    ensures
        builder_rules(r) == Seq::<GlobRule>::empty(),
{
    globset::GlobSetBuilder::new()
}

/// `globset::GlobSetBuilder::add`: holds one glob more.
#[verifier::external_body]
pub(crate) fn add_glob(builder: &mut globset::GlobSetBuilder, glob: globset::Glob)
    ensures
        builder_rules(*final(builder)) == builder_rules(*old(builder)).push(glob_rule(glob)),
{
    builder.add(glob);
}

/// `globset::GlobSetBuilder::build`: a set of all the globs that were added, or a
/// message that depends on them alone.
#[verifier::external_body]
pub(crate) fn build_glob_set(builder: &globset::GlobSetBuilder) -> (r: Result<
    globset::GlobSet,
    String,
>)
    ensures
        r is Ok <==> glob_set_fault(builder_rules(*builder)) is None,
        r matches Ok(globs) ==> set_rules(globs) == builder_rules(*builder),
        r matches Err(message) ==> glob_set_fault(builder_rules(*builder)) == Some(message@),
{
    builder.build().map_err(|error| error.to_string())
}

/// `globset::GlobSet::is_match`: whether any glob of the set matches the path.
#[verifier::external_body]
pub(crate) fn matches_glob_set(globs: &globset::GlobSet, path: &str) -> (r: bool)
    ensures
        r == (exists|i: int| 0 <= i < set_rules(*globs).len() && #[trigger] glob_matches(set_rules(*globs)[i], path@)),
{
    globs.is_match(path)
}

/// A growing buffer of bytes.
#[verifier::external_type_specification]
#[verifier::external_body]
pub struct ExBytesMut(bytes::BytesMut);

/// A finished run of bytes.
#[verifier::external_type_specification]
#[verifier::external_body]
pub struct ExBytes(bytes::Bytes);

/// The bytes that a buffer holds.
pub uninterp spec fn buffered(buffer: bytes::BytesMut) -> Seq<u8>;

/// The bytes of a finished run.
pub uninterp spec fn frozen(run: bytes::Bytes) -> Seq<u8>;

/// `bytes::BytesMut` as a slice: all the bytes that it holds.
#[verifier::external_body]
pub(crate) fn buffer_slice(buffer: &bytes::BytesMut) -> (r: &[u8])
    ensures
        r@ == buffered(*buffer),
{
    buffer.as_ref()
}

/// `bytes::Buf::advance` on a `BytesMut`: the first bytes are gone.
#[verifier::external_body]
pub(crate) fn advance_buffer(buffer: &mut bytes::BytesMut, count: usize)
    requires
        count <= buffered(*old(buffer)).len(),
    ensures
        buffered(*final(buffer)) == buffered(*old(buffer)).skip(count as int),
{
    bytes::Buf::advance(buffer, count)
}

/// `bytes::BytesMut::split_to`: the first bytes move to a buffer of their own.
#[verifier::external_body]
pub(crate) fn split_buffer(buffer: &mut bytes::BytesMut, count: usize) -> (r: bytes::BytesMut)
    requires
        count <= buffered(*old(buffer)).len(),
    ensures
        buffered(r) == buffered(*old(buffer)).take(count as int),
        buffered(*final(buffer)) == buffered(*old(buffer)).skip(count as int),
{
    buffer.split_to(count)
}

/// `bytes::BytesMut::freeze`: the same bytes.
#[verifier::external_body]
pub(crate) fn freeze_buffer(buffer: bytes::BytesMut) -> (r: bytes::Bytes)
    ensures
        frozen(r) == buffered(buffer),
{
    buffer.freeze()
}

/// `bytes::BufMut::put_slice` on a `BytesMut`: the bytes come behind those that it
/// holds. A buffer cannot hold more bytes than an allocation can have.
#[verifier::external_body]
pub(crate) fn put_bytes(buffer: &mut bytes::BytesMut, source: &[u8])
    requires
        buffered(*old(buffer)).len() + source@.len() <= isize::MAX,
    ensures
        buffered(*final(buffer)) == buffered(*old(buffer)) + source@,
{
    bytes::BufMut::put_slice(buffer, source)
}

/// `bytes::Bytes` as a slice: all of its bytes.
#[verifier::external_body]
pub(crate) fn bytes_slice(run: &bytes::Bytes) -> (r: &[u8])
    ensures
        r@ == frozen(*run),
{
    run.as_ref()
}

/// `bytes::Bytes::from` a vector: the same bytes.
#[verifier::external_body]
pub(crate) fn bytes_from_vec(source: Vec<u8>) -> (r: bytes::Bytes)
    ensures
        frozen(r) == source@,
{
    bytes::Bytes::from(source)
}

/// `bytes::Bytes::clone`: the same bytes.
pub assume_specification[ <bytes::Bytes as Clone>::clone ](run: &bytes::Bytes) -> (r: bytes::Bytes)
    ensures
        frozen(r) == frozen(*run),
;

/// The earliest and the latest instant that `time::OffsetDateTime` can hold, in
/// nanoseconds since the Unix epoch: the years from -9999 to 9999.
pub open spec fn is_instant(nanos: int) -> bool {
    -377_705_116_800_000_000_000 <= nanos <= 253_402_300_799_999_999_999
}

/// `time::OffsetDateTime::from_unix_timestamp_nanos`: it gives an instant if and only if
/// the number lies in the range that the type can hold.
#[verifier::external_body]
pub(crate) fn check_instant(nanos: i128) -> (r: Result<(), String>)
    ensures
        r is Ok <==> is_instant(nanos as int),
{
    match time::OffsetDateTime::from_unix_timestamp_nanos(nanos) {
        Ok(_) => Ok(()),
        Err(error) => Err(error.to_string()),
    }
}

} // verus!
