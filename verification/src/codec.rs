//! What a chunk is on the wire and in the database: its base64 text and its digest.
use vstd::prelude::*;

use crate::outside::{
    base64_fault, base64_symbol, base64_text, decode_base64, sha256, sha256_digest,
};
use crate::text::{lower_hex, lower_hex_text};

verus! {

/// The bytes that a base64 text stands for, if it stands for any.
pub open spec fn base64_bytes(text: Seq<char>) -> Option<Seq<u8>> {
    if exists|bytes: Seq<u8>| #[trigger] base64_text(bytes) == text {
        Some(choose|bytes: Seq<u8>| #[trigger] base64_text(bytes) == text)
    } else {
        None
    }
}

proof fn lemma_symbol_is_unique(v: int, w: int)
    requires
        0 <= v < 64,
        0 <= w < 64,
        base64_symbol(v) == base64_symbol(w),
    ensures
        v == w,
{
}

proof fn lemma_symbol_is_no_padding(v: int)
    requires
        0 <= v < 64,
    ensures
        base64_symbol(v) != '=',
{
}

proof fn lemma_quad(text: Seq<char>, a: char, b: char, c: char, d: char, rest: Seq<char>)
    requires
        text == seq![a, b, c, d] + rest,
    ensures
        text.len() == 4 + rest.len(),
        text[0] == a,
        text[1] == b,
        text[2] == c,
        text[3] == d,
        text.skip(4) == rest,
{
    assert(text.skip(4) =~= rest);
}

proof fn lemma_base64_shape(bytes: Seq<u8>)
    ensures
        base64_text(bytes).len() == (bytes.len() + 2) / 3 * 4,
        bytes.len() > 0 ==> {
            let a = bytes[0] as int;
            let b = bytes[1] as int;
            let c = bytes[2] as int;
            let text = base64_text(bytes);
            &&& text[0] == base64_symbol(a / 4)
            &&& bytes.len() == 1 ==> text[1] == base64_symbol(a % 4 * 16) && text[2] == '='
                && text[3] == '='
            &&& bytes.len() == 2 ==> text[1] == base64_symbol(a % 4 * 16 + b / 16) && text[2]
                == base64_symbol(b % 16 * 4) && text[3] == '='
            &&& bytes.len() > 2 ==> text[1] == base64_symbol(a % 4 * 16 + b / 16) && text[2]
                == base64_symbol(b % 16 * 4 + c / 64) && text[3] == base64_symbol(c % 64)
                && text.skip(4) == base64_text(bytes.skip(3))
        },
    decreases bytes.len(),
{
    if bytes.len() > 2 {
        let a = bytes[0] as int;
        let b = bytes[1] as int;
        let c = bytes[2] as int;
        lemma_base64_shape(bytes.skip(3));
        lemma_quad(
            base64_text(bytes),
            base64_symbol(a / 4),
            base64_symbol(a % 4 * 16 + b / 16),
            base64_symbol(b % 16 * 4 + c / 64),
            base64_symbol(c % 64),
            base64_text(bytes.skip(3)),
        );
    }
}

/// Different bytes have different base64 texts.
pub proof fn law_base64_text_is_unique(bytes: Seq<u8>, other: Seq<u8>)
    requires
        base64_text(bytes) == base64_text(other),
    ensures
        bytes == other,
    decreases bytes.len(),
{
    lemma_base64_shape(bytes);
    lemma_base64_shape(other);
    if bytes.len() == 0 || other.len() == 0 {
        assert(bytes =~= other);
    } else {
        let (a, b, c) = (bytes[0] as int, bytes[1] as int, bytes[2] as int);
        let (x, y, z) = (other[0] as int, other[1] as int, other[2] as int);
        lemma_symbol_is_unique(a / 4, x / 4);
        lemma_symbol_is_no_padding(b % 16 * 4);
        lemma_symbol_is_no_padding(y % 16 * 4);
        if bytes.len() > 2 {
            lemma_symbol_is_no_padding(c % 64);
            lemma_symbol_is_no_padding(b % 16 * 4 + c / 64);
        }
        if other.len() > 2 {
            lemma_symbol_is_no_padding(z % 64);
            lemma_symbol_is_no_padding(y % 16 * 4 + z / 64);
        }
        if bytes.len() == 1 {
            assert(other.len() == 1);
            lemma_symbol_is_unique(a % 4 * 16, x % 4 * 16);
        } else if bytes.len() == 2 {
            assert(other.len() == 2);
            lemma_symbol_is_unique(a % 4 * 16 + b / 16, x % 4 * 16 + y / 16);
            lemma_symbol_is_unique(b % 16 * 4, y % 16 * 4);
        } else {
            assert(other.len() > 2);
            lemma_symbol_is_unique(a % 4 * 16 + b / 16, x % 4 * 16 + y / 16);
            lemma_symbol_is_unique(b % 16 * 4 + c / 64, y % 16 * 4 + z / 64);
            lemma_symbol_is_unique(c % 64, z % 64);
            law_base64_text_is_unique(bytes.skip(3), other.skip(3));
            assert(bytes =~= seq![bytes[0], bytes[1], bytes[2]] + bytes.skip(3));
            assert(other =~= seq![other[0], other[1], other[2]] + other.skip(3));
        }
        assert(bytes =~= other);
    }
}

/// The base64 text of any bytes stands for those bytes.
pub proof fn law_base64_round_trip(bytes: Seq<u8>)
    ensures
        base64_bytes(base64_text(bytes)) == Some(bytes),
{
    let text = base64_text(bytes);
    let found = choose|found: Seq<u8>| #[trigger] base64_text(found) == text;
    law_base64_text_is_unique(found, bytes);
}

/// Decodes the base64 text of a chunk. The error is what the decoder says of the text.
pub fn chunk_bytes(text: &str) -> (r: Result<Vec<u8>, String>)
    ensures
        r matches Ok(bytes) ==> base64_bytes(text@) == Some(bytes@),
        r matches Err(fault) ==> base64_bytes(text@) is None && fault@ == base64_fault(text@),
{
    let r = decode_base64(text);
    proof {
        if r is Ok {
            law_base64_round_trip(r->Ok_0@);
        }
    }
    r
}

/// The digest of a chunk as the database holds it: SHA-256, in lower-case hexadecimal.
pub open spec fn digest_text(bytes: Seq<u8>) -> Seq<char> {
    lower_hex(sha256(bytes))
}

/// The digest of a chunk as the database holds it.
pub fn chunk_digest(bytes: &Vec<u8>) -> (digest: String)
    ensures
        digest@ == digest_text(bytes@),
        digest@.len() == 64,
{
    let raw = sha256_digest(bytes.as_slice());
    lower_hex_text(raw.as_slice())
}

} // verus!
