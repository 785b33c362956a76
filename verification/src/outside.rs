//! The calls into other crates and into the parts of the standard library that come without a
//! contract. What is claimed of each call stands in its `ensures` and is not proved here.
use base64::Engine;
use sha2::Digest;
use vstd::prelude::*;

verus! {

/// The base64 symbol of the six-bit value `v`, in the standard alphabet.
pub open spec fn base64_symbol(v: int) -> char {
    if v < 26 {
        (65 + v) as char
    } else if v < 52 {
        (97 + v - 26) as char
    } else if v < 62 {
        (48 + v - 52) as char
    } else if v == 62 {
        '+'
    } else {
        '/'
    }
}

/// The base64 text of `bytes`: four symbols for every three bytes, a last group of one or two
/// bytes filled up with zero bits and with `=` signs.
pub open spec fn base64_text(bytes: Seq<u8>) -> Seq<char>
    decreases bytes.len(),
{
    let a = bytes[0] as int;
    let b = bytes[1] as int;
    let c = bytes[2] as int;
    if bytes.len() == 0 {
        seq![]
    } else if bytes.len() == 1 {
        seq![base64_symbol(a / 4), base64_symbol(a % 4 * 16), '=', '=']
    } else if bytes.len() == 2 {
        seq![
            base64_symbol(a / 4),
            base64_symbol(a % 4 * 16 + b / 16),
            base64_symbol(b % 16 * 4),
            '=',
        ]
    } else {
        seq![
            base64_symbol(a / 4),
            base64_symbol(a % 4 * 16 + b / 16),
            base64_symbol(b % 16 * 4 + c / 64),
            base64_symbol(c % 64),
        ] + base64_text(bytes.skip(3))
    }
}

/// What the base64 decoder says of a text that it does not decode.
pub uninterp spec fn base64_fault(text: Seq<char>) -> Seq<char>;

/// `Engine::decode` of the `base64` crate, on its `STANDARD` engine, with the error given as the
/// text of its `Display`. The engine asks for canonical padding and for zero trailing bits, so
/// the claim is that a text is decoded exactly if it is the base64 text of some bytes, and then
/// to those bytes. Of an error it is claimed only that its text depends on the input alone.
#[verifier::external_body]
pub(crate) fn decode_base64(text: &str) -> (r: Result<Vec<u8>, String>)
    ensures
        r matches Ok(bytes) ==> base64_text(bytes@) == text@,
        r matches Err(fault) ==> fault@ == base64_fault(text@) && forall|bytes: Seq<u8>| #[trigger]
            base64_text(bytes) != text@,
{
    match base64::engine::general_purpose::STANDARD.decode(text) {
        Ok(bytes) => Ok(bytes),
        Err(fault) => Err(fault.to_string()),
    }
}

/// The SHA-256 digest of a message.
pub uninterp spec fn sha256(message: Seq<u8>) -> Seq<u8>;

/// `Sha256::digest` of the `sha2` crate. The claim is that the digest, 32 bytes long, depends on
/// the message alone.
#[verifier::external_body]
pub(crate) fn sha256_digest(message: &[u8]) -> (digest: [u8; 32])
    ensures
        digest@ == sha256(message@),
{
    sha2::Sha256::digest(message).into()
}

/// Whether the sixteen bytes carry the marks of a random UUID: version four and the standard
/// variant.
pub open spec fn is_random_uuid(bytes: Seq<u8>) -> bool {
    &&& bytes.len() == 16
    &&& 0x40 <= bytes[6] < 0x50
    &&& 0x80 <= bytes[8] < 0xc0
}

/// `Uuid::new_v4` of the `uuid` crate, as bytes in the order in which they are written. The bytes
/// come from the operating system's random source; the claim is only that the version and the
/// variant are marked. The call panics where that source fails.
#[verifier::external_body]
pub(crate) fn random_uuid() -> (bytes: [u8; 16])
    ensures
        is_random_uuid(bytes@),
{
    uuid::Uuid::new_v4().into_bytes()
}

/// Whether a character may stand in the value of an HTTP header.
pub open spec fn header_char(c: char) -> bool {
    c == '\t' || (c >= ' ' && c != '\u{7f}')
}

/// The conversion of a `String` into a `HeaderValue` of the `http` crate, which `axum`
/// re-exports: the fault as the text of its `Display`, or `None` where there is none. The claim
/// is that the value is refused exactly if it holds a control character other than a tab, and
/// what is then said.
#[verifier::external_body]
pub(crate) fn header_value_fault(value: &str) -> (fault: Option<String>)
    ensures
        fault is None <==> forall|i: int|
            0 <= i < value@.len() ==> header_char(#[trigger] value@[i]),
        fault matches Some(message) ==> message@ == "failed to parse header value"@,
{
    match axum::http::HeaderValue::try_from(value.to_string()) {
        Ok(_) => None,
        Err(fault) => Some(fault.to_string()),
    }
}

/// The lower-case form of a text, as Unicode has it.
pub uninterp spec fn lowercase(text: Seq<char>) -> Seq<char>;

/// The lower-case form of an ASCII character.
pub open spec fn ascii_lowercase(c: char) -> char {
    if 'A' <= c <= 'Z' {
        (c as int + 32) as char
    } else {
        c
    }
}

/// `str::to_lowercase` of the standard library. The claim is that the result depends on the text
/// alone and that of an ASCII text exactly the letters `A` to `Z` change.
#[verifier::external_body]
pub(crate) fn to_lowercase(text: &str) -> (r: String)
    ensures
        r@ == lowercase(text@),
        (forall|i: int| 0 <= i < text@.len() ==> #[trigger] text@[i] < '\u{80}') ==> r@
            == text@.map_values(|c: char| ascii_lowercase(c)),
{
    text.to_lowercase()
}

/// The text of a path as it is shown for debugging: quoted, with what cannot be shown escaped.
pub uninterp spec fn path_debug(path: Seq<char>) -> Seq<char>;

/// The `Debug` of a `Path` of the standard library. The claim is that the result depends on the
/// text of the path alone. What is escaped, and how, is left unsaid.
#[verifier::external_body]
pub(crate) fn debug_path(path: &str) -> (r: String)
    ensures
        r@ == path_debug(path@),
{
    format!("{:?}", std::path::Path::new(path))
}

} // verus!
