//! What the digits of ids, tokens and digests stand for.
use vstd::prelude::*;

use crate::identity::{hyphenated, identity_of};
use crate::text::{law_lower_hex_is_unique, lower_hex};

verus! {

/// The value of a lower-case hexadecimal digit.
pub open spec fn hex_value(c: char) -> int {
    if '0' <= c <= '9' {
        c as int - '0' as int
    } else if 'a' <= c <= 'f' {
        c as int - 'a' as int + 10
    } else {
        -1
    }
}

/// Whether `text` is `bytes` in hexadecimal: two lower-case digits for each, the high one first.
pub open spec fn is_hex_of(text: Seq<char>, bytes: Seq<u8>) -> bool {
    &&& text.len() == 2 * bytes.len()
    &&& forall|i: int|
        0 <= i < bytes.len() ==> {
            &&& 0 <= hex_value(text[2 * i]) < 16
            &&& 0 <= hex_value(text[2 * i + 1]) < 16
            &&& hex_value(text[2 * i]) * 16 + hex_value(text[2 * i + 1]) == #[trigger] bytes[i]
        }
}

/// The digits of bytes read back as the bytes.
pub proof fn law_hex_reads_back(bytes: Seq<u8>)
    ensures
        is_hex_of(lower_hex(bytes), bytes),
{
    let text = lower_hex(bytes);
    assert forall|i: int| 0 <= i < bytes.len() implies {
        &&& 0 <= hex_value(text[2 * i]) < 16
        &&& 0 <= hex_value(text[2 * i + 1]) < 16
        &&& hex_value(text[2 * i]) * 16 + hex_value(text[2 * i + 1]) == #[trigger] bytes[i]
    } by {
        let b = bytes[i] as int;
        assert((2 * i) / 2 == i && (2 * i) % 2 == 0);
        assert((2 * i + 1) / 2 == i && (2 * i + 1) % 2 == 1);
        assert(0 <= b / 16 < 16 && 0 <= b % 16 < 16 && b == b / 16 * 16 + b % 16);
    }
}

/// The text of a UUID without its hyphens.
pub open spec fn without_hyphens(text: Seq<char>) -> Seq<char> {
    text.subrange(0, 8) + text.subrange(9, 13) + text.subrange(14, 18) + text.subrange(19, 23)
        + text.subrange(24, 36)
}

/// The id of a session is the UUID that was drawn first: its thirty-two digits, with hyphens behind
/// the eighth, twelfth, sixteenth and twentieth. So two ids are equal only if their UUIDs are.
pub proof fn law_session_id_is_its_uuid(
    id: Seq<u8>,
    first: Seq<u8>,
    second: Seq<u8>,
    other_id: Seq<u8>,
    other_first: Seq<u8>,
    other_second: Seq<u8>,
)
    requires
        id.len() == 16,
        other_id.len() == 16,
    ensures
        ({
            let text = identity_of(id, first, second).session_id;
            let other = identity_of(other_id, other_first, other_second).session_id;
            &&& text.len() == 36
            &&& text[8] == '-' && text[13] == '-' && text[18] == '-' && text[23] == '-'
            &&& is_hex_of(without_hyphens(text), id)
            &&& text == other ==> id == other_id
        }),
{
    lemma_hyphenated(id);
    lemma_hyphenated(other_id);
    law_hex_reads_back(id);
    if hyphenated(id) == hyphenated(other_id) {
        law_lower_hex_is_unique(id, other_id);
    }
}

proof fn lemma_hex_of_part(bytes: Seq<u8>, from: int, to: int)
    requires
        0 <= from <= to <= bytes.len(),
    ensures
        lower_hex(bytes.subrange(from, to)) == lower_hex(bytes).subrange(2 * from, 2 * to),
{
    let part = bytes.subrange(from, to);
    assert forall|i: int| 0 <= i < 2 * (to - from) implies lower_hex(part)[i] == lower_hex(
        bytes,
    ).subrange(2 * from, 2 * to)[i] by {
        assert((i + 2 * from) / 2 == i / 2 + from);
        assert((i + 2 * from) % 2 == i % 2);
    }
    assert(lower_hex(part) =~= lower_hex(bytes).subrange(2 * from, 2 * to));
}

proof fn lemma_hyphenated(uuid: Seq<u8>)
    requires
        uuid.len() == 16,
    ensures
        hyphenated(uuid).len() == 36,
        hyphenated(uuid)[8] == '-',
        hyphenated(uuid)[13] == '-',
        hyphenated(uuid)[18] == '-',
        hyphenated(uuid)[23] == '-',
        without_hyphens(hyphenated(uuid)) == lower_hex(uuid),
{
    lemma_hex_of_part(uuid, 0, 4);
    lemma_hex_of_part(uuid, 4, 6);
    lemma_hex_of_part(uuid, 6, 8);
    lemma_hex_of_part(uuid, 8, 10);
    lemma_hex_of_part(uuid, 10, 16);
    assert(without_hyphens(hyphenated(uuid)) =~= lower_hex(uuid));
}

/// The token of a session is the digits of the two UUIDs that were drawn after the id's, one after
/// the other.
pub proof fn law_secret_token_is_two_uuids(id: Seq<u8>, first: Seq<u8>, second: Seq<u8>)
    requires
        first.len() == 16,
        second.len() == 16,
    ensures
        is_hex_of(identity_of(id, first, second).secret_token, first + second),
{
    law_hex_reads_back(first + second);
    lemma_hex_of_part(first + second, 0, 16);
    lemma_hex_of_part(first + second, 16, 32);
    assert((first + second).subrange(0, 16) =~= first);
    assert((first + second).subrange(16, 32) =~= second);
    assert(lower_hex(first) + lower_hex(second) =~= lower_hex(first + second));
}

} // verus!
