//! The id and the secret token of a new session.
use vstd::prelude::*;

use crate::layout::plain;
use crate::outside::{is_random_uuid, random_uuid};
use crate::text::{law_lower_hex_is_unique, lower_hex, push_lower_hex};

verus! {

/// What a session is known by: the id names it in the database and on disk, the token opens it
/// to whoever has the secret link.
#[derive(Debug, PartialEq, Eq)]
pub struct SessionIdentity {
    pub session_id: String,
    pub secret_token: String,
}

/// The model of a [`SessionIdentity`].
pub struct IdentityView {
    pub session_id: Seq<char>,
    pub secret_token: Seq<char>,
}

impl View for SessionIdentity {
    type V = IdentityView;

    open spec fn view(&self) -> IdentityView {
        IdentityView { session_id: self.session_id@, secret_token: self.secret_token@ }
    }
}

/// A UUID in its usual form: groups of 8, 4, 4, 4 and 12 hexadecimal digits with hyphens between.
pub open spec fn hyphenated(uuid: Seq<u8>) -> Seq<char> {
    lower_hex(uuid.subrange(0, 4)) + seq!['-'] + lower_hex(uuid.subrange(4, 6)) + seq!['-']
        + lower_hex(uuid.subrange(6, 8)) + seq!['-'] + lower_hex(uuid.subrange(8, 10)) + seq!['-']
        + lower_hex(uuid.subrange(10, 16))
}

/// The identity made of three UUIDs: the first is the id, the digits of the other two are the
/// token.
pub open spec fn identity_of(id: Seq<u8>, first: Seq<u8>, second: Seq<u8>) -> IdentityView {
    IdentityView {
        session_id: hyphenated(id),
        secret_token: lower_hex(first) + lower_hex(second),
    }
}

/// Whether `identity` is one that three random UUIDs can give.
pub open spec fn is_generated(identity: IdentityView) -> bool {
    exists|id: Seq<u8>, first: Seq<u8>, second: Seq<u8>|
        is_random_uuid(id) && is_random_uuid(first) && is_random_uuid(second) && identity
            == #[trigger] identity_of(id, first, second)
}

/// The text of a UUID in its usual form.
pub fn hyphenated_text(uuid: &[u8; 16]) -> (text: String)
    ensures
        text@ == hyphenated(uuid@),
{
    let bytes = uuid.as_slice();
    let mut text = String::new();
    push_lower_hex(&mut text, bytes, 0, 4);
    text.push('-');
    push_lower_hex(&mut text, bytes, 4, 6);
    text.push('-');
    push_lower_hex(&mut text, bytes, 6, 8);
    text.push('-');
    push_lower_hex(&mut text, bytes, 8, 10);
    text.push('-');
    push_lower_hex(&mut text, bytes, 10, 16);
    assert(text@ =~= hyphenated(uuid@));
    text
}

/// The identity made of three UUIDs.
pub fn session_identity(id: &[u8; 16], first: &[u8; 16], second: &[u8; 16]) -> (r: SessionIdentity)
    ensures
        r@ == identity_of(id@, first@, second@),
{
    let session_id = hyphenated_text(id);
    let mut secret_token = String::new();
    push_lower_hex(&mut secret_token, first.as_slice(), 0, 16);
    push_lower_hex(&mut secret_token, second.as_slice(), 0, 16);
    proof {
        assert(first@.subrange(0, 16) =~= first@);
        assert(second@.subrange(0, 16) =~= second@);
        assert(secret_token@ =~= lower_hex(first@) + lower_hex(second@));
    }
    SessionIdentity { session_id, secret_token }
}

/// A fresh identity. Which one it is, chance decides.
pub fn new_session_identity() -> (r: SessionIdentity)
    ensures
        is_generated(r@),
{
    let id = random_uuid();
    let first = random_uuid();
    let second = random_uuid();
    let r = session_identity(&id, &first, &second);
    assert(r@ == identity_of(id@, first@, second@));
    r
}

/// Whether `c` is a lower-case hexadecimal digit.
pub open spec fn is_hex(c: char) -> bool {
    '0' <= c <= '9' || 'a' <= c <= 'f'
}

proof fn lemma_lower_hex_chars(bytes: Seq<u8>)
    ensures
        lower_hex(bytes).len() == 2 * bytes.len(),
        forall|i: int| 0 <= i < lower_hex(bytes).len() ==> is_hex(#[trigger] lower_hex(bytes)[i]),
{
    assert forall|i: int| 0 <= i < lower_hex(bytes).len() implies is_hex(
        #[trigger] lower_hex(bytes)[i],
    ) by {
        let b = bytes[i / 2] as int;
        assert(0 <= b / 16 < 16 && 0 <= b % 16 < 16);
    }
}

/// The secret token of a generated identity is 64 hexadecimal digits, and it determines the two
/// UUIDs it was made of: two tokens are equal only if their random bytes are.
pub proof fn law_secret_token_keeps_all_randomness(
    first: Seq<u8>,
    second: Seq<u8>,
    other_first: Seq<u8>,
    other_second: Seq<u8>,
    id: Seq<u8>,
    other_id: Seq<u8>,
)
    requires
        is_random_uuid(first),
        is_random_uuid(second),
        is_random_uuid(other_first),
        is_random_uuid(other_second),
    ensures
        ({
            let token = identity_of(id, first, second).secret_token;
            let other = identity_of(other_id, other_first, other_second).secret_token;
            &&& token.len() == 64
            &&& forall|i: int| 0 <= i < 64 ==> is_hex(#[trigger] token[i])
            &&& token == other ==> first == other_first && second == other_second
        }),
{
    lemma_lower_hex_chars(first);
    lemma_lower_hex_chars(second);
    let token = lower_hex(first) + lower_hex(second);
    let other = lower_hex(other_first) + lower_hex(other_second);
    assert forall|i: int| 0 <= i < 64 implies is_hex(#[trigger] token[i]) by {
        if i < 32 {
            assert(token[i] == lower_hex(first)[i]);
        } else {
            assert(token[i] == lower_hex(second)[i - 32]);
        }
    }
    if token == other {
        assert(lower_hex(first) =~= token.take(32));
        assert(lower_hex(other_first) =~= other.take(32));
        assert(lower_hex(second) =~= token.skip(32));
        assert(lower_hex(other_second) =~= other.skip(32));
        law_lower_hex_is_unique(first, other_first);
        law_lower_hex_is_unique(second, other_second);
    }
}

/// The id of a generated identity is 36 characters, hexadecimal digits and hyphens only, so that
/// it is an ordinary file name.
pub proof fn law_session_id_is_plain(identity: IdentityView)
    requires
        is_generated(identity),
    ensures
        identity.session_id.len() == 36,
        forall|i: int|
            0 <= i < 36 ==> is_hex(#[trigger] identity.session_id[i]) || identity.session_id[i]
                == '-',
        plain(identity.session_id),
{
    let (uuid, first, second) = choose|id: Seq<u8>, first: Seq<u8>, second: Seq<u8>|
        is_random_uuid(id) && is_random_uuid(first) && is_random_uuid(second) && identity
            == #[trigger] identity_of(id, first, second);
    let id = identity.session_id;
    lemma_lower_hex_chars(uuid.subrange(0, 4));
    lemma_lower_hex_chars(uuid.subrange(4, 6));
    lemma_lower_hex_chars(uuid.subrange(6, 8));
    lemma_lower_hex_chars(uuid.subrange(8, 10));
    lemma_lower_hex_chars(uuid.subrange(10, 16));
    assert forall|i: int| 0 <= i < 36 implies is_hex(#[trigger] id[i]) || id[i] == '-' by {
        if i < 8 {
            assert(id[i] == lower_hex(uuid.subrange(0, 4))[i]);
        } else if 9 <= i < 13 {
            assert(id[i] == lower_hex(uuid.subrange(4, 6))[i - 9]);
        } else if 14 <= i < 18 {
            assert(id[i] == lower_hex(uuid.subrange(6, 8))[i - 14]);
        } else if 19 <= i < 23 {
            assert(id[i] == lower_hex(uuid.subrange(8, 10))[i - 19]);
        } else if 24 <= i {
            assert(id[i] == lower_hex(uuid.subrange(10, 16))[i - 24]);
        }
    }
    if id.contains('/') {
        let i = choose|i: int| 0 <= i < id.len() && id[i] == '/';
        assert(is_hex(id[i]) || id[i] == '-');
    }
    if id.contains('.') {
        let i = choose|i: int| 0 <= i < id.len() && id[i] == '.';
        assert(is_hex(id[i]) || id[i] == '-');
    }
}

} // verus!
