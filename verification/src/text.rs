//! Building and reading text: decimal and hexadecimal numerals, substring search, and the
//! reading of an unsigned number.
use vstd::prelude::*;

verus! {

/// `String::push` of the standard library: appends the given character to the end of the string.
pub assume_specification[ String::push ](s: &mut String, c: char)
    ensures
        final(s)@ == old(s)@.push(c),
;

/// The characters of `s`, in order.
pub fn chars_of(s: &str) -> (chars: Vec<char>)
    ensures
        chars@ == s@,
{
    let mut chars: Vec<char> = Vec::new();
    for c in it: s.chars()
        invariant
            it.seq() == s@,
            chars@ == s@.take(it.index() as int),
    {
        chars.push(c);
    }
    chars
}

/// The text made of `chars[from..to]`.
pub fn text_of(chars: &Vec<char>, from: usize, to: usize) -> (text: String)
    requires
        from <= to <= chars@.len(),
    ensures
        text@ == chars@.subrange(from as int, to as int),
{
    let mut text = String::new();
    let mut i: usize = from;
    while i < to
        invariant
            from <= i <= to <= chars@.len(),
            text@ == chars@.subrange(from as int, i as int),
        decreases to - i,
    {
        text.push(chars[i]);
        i = i + 1;
    }
    text
}

/// `a` followed by `b`.
pub fn joined(a: &str, b: &str) -> (text: String)
    ensures
        text@ == a@ + b@,
{
    let mut text = String::new();
    text.append(a);
    text.append(b);
    text
}

/// `a` followed by `b` followed by `c`.
pub fn joined3(a: &str, b: &str, c: &str) -> (text: String)
    ensures
        text@ == a@ + b@ + c@,
{
    let mut text = joined(a, b);
    text.append(c);
    text
}

/// A copy of an optional text.
pub fn copied(text: &Option<String>) -> (r: Option<String>)
    ensures
        r == *text,
{
    match text {
        Some(t) => Some(t.clone()),
        None => None,
    }
}

/// The view of an optional text.
pub open spec fn opt_text(text: Option<String>) -> Option<Seq<char>> {
    match text {
        Some(t) => Some(t@),
        None => None,
    }
}

/// The decimal digit of value `d`, for `d` in `0..10`.
pub open spec fn decimal_digit(d: int) -> char {
    (48 + d) as char
}

/// `n` in decimal, without leading zeros.
pub open spec fn decimal(n: nat) -> Seq<char>
    decreases n,
{
    if n < 10 {
        seq![decimal_digit(n as int)]
    } else {
        decimal(n / 10).push(decimal_digit((n % 10) as int))
    }
}

/// `n` in decimal, filled up with zeros on the left to at least `width` characters.
pub open spec fn zero_padded(n: nat, width: nat) -> Seq<char> {
    let digits = decimal(n);
    if digits.len() >= width {
        digits
    } else {
        Seq::new((width - digits.len()) as nat, |i: int| '0') + digits
    }
}

fn push_decimal(out: &mut String, n: u32)
    ensures
        final(out)@ == old(out)@ + decimal(n as nat),
    decreases n,
{
    if n >= 10 {
        push_decimal(out, n / 10);
    }
    let digit: u8 = 48 + (n % 10) as u8;
    out.push(digit as char);
}

/// The text of `n` in decimal, zero filled to `width` characters.
pub fn zero_padded_text(n: u32, width: usize) -> (text: String)
    ensures
        text@ == zero_padded(n as nat, width as nat),
{
    let mut digits = String::new();
    push_decimal(&mut digits, n);
    let len: usize = digits.as_str().unicode_len();
    let mut text = String::new();
    let mut i: usize = len;
    while i < width
        invariant
            len <= i,
            i <= width || i == len,
            text@ == Seq::new((i - len) as nat, |k: int| '0'),
        decreases width - i,
    {
        text.push('0');
        i = i + 1;
    }
    text.append(digits.as_str());
    text
}

/// The lower-case hexadecimal digit of value `d`, for `d` in `0..16`.
pub open spec fn hex_digit(d: int) -> char {
    if d < 10 {
        (48 + d) as char
    } else {
        (87 + d) as char
    }
}

/// Two lower-case hexadecimal digits per byte, the high half first.
pub open spec fn lower_hex(bytes: Seq<u8>) -> Seq<char> {
    Seq::new(
        2 * bytes.len(),
        |i: int|
            hex_digit(
                if i % 2 == 0 {
                    bytes[i / 2] as int / 16
                } else {
                    bytes[i / 2] as int % 16
                },
            ),
    )
}

fn hex_char(d: u8) -> (c: char)
    requires
        d < 16,
    ensures
        c == hex_digit(d as int),
{
    if d < 10 {
        (48 + d) as char
    } else {
        (87 + d) as char
    }
}

/// Appends the hexadecimal text of `bytes[from..to]`.
pub fn push_lower_hex(out: &mut String, bytes: &[u8], from: usize, to: usize)
    requires
        from <= to <= bytes@.len(),
    ensures
        final(out)@ == old(out)@ + lower_hex(bytes@.subrange(from as int, to as int)),
{
    let ghost before = out@;
    let mut i: usize = from;
    while i < to
        invariant
            from <= i <= to <= bytes@.len(),
            out@ == before + lower_hex(bytes@.subrange(from as int, i as int)),
        decreases to - i,
    {
        let ghost done = bytes@.subrange(from as int, i as int);
        let ghost next = bytes@.subrange(from as int, i + 1);
        let b: u8 = bytes[i];
        out.push(hex_char(b / 16));
        out.push(hex_char(b % 16));
        proof {
            assert(next =~= done.push(b));
            assert(lower_hex(next) =~= lower_hex(done).push(hex_digit(b as int / 16)).push(
                hex_digit(b as int % 16),
            ));
        }
        i = i + 1;
    }
}

/// The hexadecimal text of `bytes`.
pub fn lower_hex_text(bytes: &[u8]) -> (text: String)
    ensures
        text@ == lower_hex(bytes@),
        text@.len() == 2 * bytes@.len(),
{
    let mut text = String::new();
    push_lower_hex(&mut text, bytes, 0, bytes.len());
    assert(bytes@.subrange(0, bytes@.len() as int) =~= bytes@);
    text
}

/// Different bytes have different hexadecimal texts.
pub proof fn law_lower_hex_is_unique(bytes: Seq<u8>, other: Seq<u8>)
    requires
        lower_hex(bytes) == lower_hex(other),
    ensures
        bytes == other,
{
    let text = lower_hex(bytes);
    assert(text.len() == 2 * bytes.len());
    assert(lower_hex(other).len() == 2 * other.len());
    assert forall|i: int| 0 <= i < bytes.len() implies bytes[i] == other[i] by {
        let (high, low) = (2 * i, 2 * i + 1);
        assert(text[high] == hex_digit(bytes[i] as int / 16));
        assert(text[low] == hex_digit(bytes[i] as int % 16));
        assert(lower_hex(other)[high] == hex_digit(other[i] as int / 16));
        assert(lower_hex(other)[low] == hex_digit(other[i] as int % 16));
    }
    assert(bytes =~= other);
}

/// Whether `pattern` stands at position `at` of `text`.
pub open spec fn occurs_at(text: Seq<char>, pattern: Seq<char>, at: int) -> bool {
    &&& 0 <= at <= text.len() - pattern.len()
    &&& text.subrange(at, at + pattern.len()) == pattern
}

/// Whether `pattern` stands anywhere in `text`.
pub open spec fn occurs(text: Seq<char>, pattern: Seq<char>) -> bool {
    exists|at: int| occurs_at(text, pattern, at)
}

fn stands_at(text: &Vec<char>, pattern: &Vec<char>, at: usize) -> (r: bool)
    requires
        at + pattern@.len() <= text@.len(),
    ensures
        r == occurs_at(text@, pattern@, at as int),
{
    let len: usize = text.len();
    let mut i: usize = 0;
    while i < pattern.len()
        invariant
            i <= pattern@.len(),
            at + pattern@.len() <= len == text@.len(),
            forall|k: int| 0 <= k < i ==> text@[at + k] == pattern@[k],
        decreases pattern@.len() - i,
    {
        if text[at + i] != pattern[i] {
            proof {
                let window = text@.subrange(at as int, at + pattern@.len());
                assert(window[i as int] != pattern@[i as int]);
            }
            return false;
        }
        i = i + 1;
    }
    assert(text@.subrange(at as int, at + pattern@.len()) =~= pattern@);
    true
}

/// Whether `text` contains `pattern`.
pub fn contains(text: &str, pattern: &str) -> (r: bool)
    ensures
        r == occurs(text@, pattern@),
{
    let hay = chars_of(text);
    let needle = chars_of(pattern);
    if needle.len() > hay.len() {
        return false;
    }
    let last: usize = hay.len() - needle.len();
    let mut at: usize = 0;
    while at < last
        invariant
            hay@ == text@,
            needle@ == pattern@,
            at <= last == text@.len() - pattern@.len(),
            forall|k: int| 0 <= k < at ==> !occurs_at(text@, pattern@, k),
        decreases last - at,
    {
        if stands_at(&hay, &needle, at) {
            return true;
        }
        at = at + 1;
    }
    stands_at(&hay, &needle, at)
}

/// Whether `text` begins with `prefix`.
pub fn starts_with(text: &str, prefix: &str) -> (r: bool)
    ensures
        r == prefix@.is_prefix_of(text@),
{
    let whole = chars_of(text);
    let head = chars_of(prefix);
    head.len() <= whole.len() && stands_at(&whole, &head, 0)
}

/// The numeral after an optional plus sign.
pub open spec fn without_sign(text: Seq<char>) -> Seq<char> {
    if text.len() > 0 && text[0] == '+' {
        text.skip(1)
    } else {
        text
    }
}

/// Whether `text` is one or more decimal digits and nothing else.
pub open spec fn is_numeral(text: Seq<char>) -> bool {
    &&& text.len() > 0
    &&& forall|i: int| 0 <= i < text.len() ==> '0' <= #[trigger] text[i] <= '9'
}

/// The value of a sequence of decimal digits.
pub open spec fn numeral_value(text: Seq<char>) -> int
    decreases text.len(),
{
    if text.len() == 0 {
        0
    } else {
        10 * numeral_value(text.drop_last()) + (text.last() as int - 48)
    }
}

/// The number that `text` writes: an optional plus sign and then only decimal digits, of a value
/// that fits.
pub open spec fn number_in(text: Seq<char>) -> Option<usize> {
    let digits = without_sign(text);
    if is_numeral(digits) && numeral_value(digits) <= usize::MAX {
        Some(numeral_value(digits) as usize)
    } else {
        None
    }
}

/// A number written in decimal, zero filled or not, reads back as that number.
pub proof fn lemma_padded_numeral_reads_back(n: nat, width: nat)
    ensures
        is_numeral(zero_padded(n, width)),
        numeral_value(zero_padded(n, width)) == n,
{
    lemma_decimal_reads_back(n);
    let digits = decimal(n);
    if digits.len() < width {
        let zeros = Seq::new((width - digits.len()) as nat, |i: int| '0');
        lemma_leading_zeros(zeros, digits);
    }
}

proof fn lemma_decimal_reads_back(n: nat)
    ensures
        is_numeral(decimal(n)),
        numeral_value(decimal(n)) == n,
    decreases n,
{
    if n >= 10 {
        lemma_decimal_reads_back(n / 10);
        assert(decimal(n).drop_last() =~= decimal(n / 10));
    } else {
        assert(decimal(n).drop_last() =~= Seq::empty());
        assert(numeral_value(Seq::empty()) == 0);
    }
}

proof fn lemma_leading_zeros(zeros: Seq<char>, digits: Seq<char>)
    requires
        forall|i: int| 0 <= i < zeros.len() ==> zeros[i] == '0',
    ensures
        numeral_value(zeros + digits) == numeral_value(digits),
    decreases zeros.len() + digits.len(),
{
    if digits.len() > 0 {
        lemma_leading_zeros(zeros, digits.drop_last());
        assert((zeros + digits).drop_last() =~= zeros + digits.drop_last());
    } else if zeros.len() > 0 {
        lemma_leading_zeros(zeros.drop_last(), digits);
        assert((zeros + digits).drop_last() =~= zeros.drop_last() + digits);
    }
}

/// A text is cut in one way only at the first occurrence of a separator.
pub proof fn lemma_cut_is_unique(
    before: Seq<char>,
    after: Seq<char>,
    other_before: Seq<char>,
    other_after: Seq<char>,
    separator: char,
)
    requires
        !before.contains(separator),
        !other_before.contains(separator),
        before.push(separator) + after == other_before.push(separator) + other_after,
    ensures
        before == other_before,
        after == other_after,
{
    let whole = before.push(separator) + after;
    let other = other_before.push(separator) + other_after;
    assert(whole[before.len() as int] == separator);
    assert(other[other_before.len() as int] == separator);
    if before.len() < other_before.len() {
        assert(other[before.len() as int] == other_before[before.len() as int]);
        assert(other_before.contains(separator));
    }
    if other_before.len() < before.len() {
        assert(whole[other_before.len() as int] == before[other_before.len() as int]);
        assert(before.contains(separator));
    }
    assert(before =~= whole.take(before.len() as int));
    assert(other_before =~= other.take(before.len() as int));
    assert(after =~= whole.skip((before.len() + 1) as int));
    assert(other_after =~= other.skip((before.len() + 1) as int));
}

proof fn lemma_longer_numeral_is_no_smaller(text: Seq<char>, n: int)
    requires
        is_numeral(text),
        0 <= n <= text.len(),
    ensures
        0 <= numeral_value(text.take(n)) <= numeral_value(text),
    decreases text.len() - n, n,
{
    if n == text.len() {
        assert(text.take(n) =~= text);
        if n > 1 {
            lemma_longer_numeral_is_no_smaller(text.drop_last(), n - 1);
        } else {
            assert(text.drop_last().len() == 0);
        }
    } else {
        lemma_longer_numeral_is_no_smaller(text, n + 1);
        assert(text.take(n + 1).drop_last() =~= text.take(n));
        if n > 0 {
            lemma_numeral_is_natural(text.take(n));
        }
    }
}

proof fn lemma_numeral_is_natural(text: Seq<char>)
    requires
        forall|i: int| 0 <= i < text.len() ==> '0' <= #[trigger] text[i] <= '9',
    ensures
        0 <= numeral_value(text),
    decreases text.len(),
{
    if text.len() > 0 {
        lemma_numeral_is_natural(text.drop_last());
    }
}

/// Reads an unsigned number: an optional plus sign and then only decimal digits. `None` where
/// the text is anything else or the value does not fit.
pub fn parse_usize(text: &str) -> (r: Option<usize>)
    ensures
        r == number_in(text@),
{
    let chars = chars_of(text);
    let mut i: usize = 0;
    if chars.len() > 0 && chars[0] == '+' {
        i = 1;
    }
    let ghost digits = without_sign(text@);
    let ghost start = i as int;
    if i == chars.len() {
        return None;
    }
    assert(chars@.subrange(start, start) =~= Seq::<char>::empty());
    let mut value: usize = 0;
    while i < chars.len()
        invariant
            chars@ == text@,
            start <= i <= chars@.len(),
            0 <= start <= 1,
            digits == chars@.skip(start),
            digits.len() > 0,
            forall|k: int| 0 <= k < i - start ==> '0' <= #[trigger] digits[k] <= '9',
            value == numeral_value(digits.take(i - start)),
            digits == without_sign(text@),
        decreases chars@.len() - i,
    {
        let c: char = chars[i];
        let ghost read = digits.take(i - start);
        let ghost with_next = digits.take(i + 1 - start);
        proof {
            assert(digits[i - start] == c);
            assert(with_next.drop_last() =~= read);
            assert(with_next.last() == c);
        }
        if c < '0' || c > '9' {
            return None;
        }
        let next: u128 = value as u128 * 10 + (c as u32 - 48) as u128;
        assert(next == numeral_value(with_next));
        if next > usize::MAX as u128 {
            proof {
                if is_numeral(digits) {
                    lemma_longer_numeral_is_no_smaller(digits, i + 1 - start);
                }
            }
            return None;
        }
        value = next as usize;
        i = i + 1;
    }
    assert(digits.take(digits.len() as int) =~= digits);
    Some(value)
}

} // verus!
