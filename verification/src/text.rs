//! Text helpers with exact specifications: decimal rendering and parsing of
//! unsigned integers, whitespace tests and byte-wise string order.

use vstd::prelude::*;
use vstd::string::*;

verus! {

/// `String::push` from std: appends one character.
/// Claimed: the character sequence of the string gains `c` at its end.
#[verifier::external_body]
pub(crate) fn push_char(s: &mut String, c: char)
    ensures
        final(s)@ == old(s)@.push(c),
{
    s.push(c);
}

/// The ASCII digit for a value below ten.
pub open spec fn digit_char(d: nat) -> char {
    (48 + d) as char
}

/// Decimal rendering of a natural number, most significant digit first,
/// without sign or leading zeros (zero renders as "0").
pub open spec fn decimal(n: nat) -> Seq<char>
    decreases n,
{
    if n < 10 {
        seq![digit_char(n)]
    } else {
        decimal(n / 10).push(digit_char(n % 10))
    }
}

fn digit(d: u64) -> (c: char)
    requires
        d < 10,
    ensures
        c == digit_char(d as nat),
{
    ((48 + d) as u8) as char
}

/// Appends the decimal rendering of `n` to `s`.
pub fn push_decimal(s: &mut String, n: u64)
    ensures
        final(s)@ == old(s)@ + decimal(n as nat),
    decreases n,
{
    let ghost start = s@;
    if n >= 10 {
        push_decimal(s, n / 10);
    }
    push_char(s, digit(n % 10));
    proof {
        if n >= 10 {
            assert(start + decimal(n as nat) =~= (start + decimal((n / 10) as nat)).push(
                digit_char((n % 10) as nat),
            ));
        } else {
            assert(start + decimal(n as nat) =~= start.push(digit_char(n as nat)));
        }
    }
}

/// The decimal rendering of `n` as a new string.
pub fn decimal_string(n: u64) -> (r: String)
    ensures
        r@ == decimal(n as nat),
{
    let mut s = String::new();
    push_decimal(&mut s, n);
    assert(s@ =~= decimal(n as nat));
    s
}


/// A character in `'0'..='9'`.
pub open spec fn is_ascii_digit(c: char) -> bool {
    48 <= (c as u32) <= 57
}

/// Every character of `s` is an ASCII digit.
pub open spec fn all_digits(s: Seq<char>) -> bool {
    forall|i: int| 0 <= i < s.len() ==> is_ascii_digit(#[trigger] s[i])
}

/// The value of a string of decimal digits, most significant first.
pub open spec fn digits_value(s: Seq<char>) -> int
    decreases s.len(),
{
    if s.len() == 0 {
        0
    } else {
        digits_value(s.drop_last()) * 10 + ((s.last() as u32) - 48)
    }
}

/// The part of `s` that must be digits: `s` without one leading `+`.
pub open spec fn unsigned_digits(s: Seq<char>) -> Seq<char> {
    if s.len() > 0 && s[0] == '+' {
        s.drop_first()
    } else {
        s
    }
}

/// What std's `str::parse` gives for an unsigned integer type whose
/// largest value is `max`: an optional `+`, then one or more ASCII digits
/// (leading zeros allowed, no whitespace), whose value must not exceed `max`.
pub open spec fn parse_unsigned(s: Seq<char>, max: int) -> Option<int> {
    let d = unsigned_digits(s);
    if d.len() > 0 && all_digits(d) && digits_value(d) <= max {
        Some(digits_value(d))
    } else {
        None
    }
}

proof fn lemma_digits_value_prefix(s: Seq<char>, k: int)
    requires
        all_digits(s),
        0 <= k <= s.len(),
    ensures
        0 <= digits_value(s.subrange(0, k)) <= digits_value(s),
    decreases s.len(),
{
    if s.len() == 0 {
        assert(s.subrange(0, k) =~= s);
    } else if k == s.len() {
        assert(s.subrange(0, k) =~= s);
        lemma_digits_value_prefix(s.drop_last(), s.len() - 1);
        assert(s.drop_last().subrange(0, s.len() - 1) =~= s.drop_last());
        assert(is_ascii_digit(s[s.len() - 1]));
    } else {
        lemma_digits_value_prefix(s.drop_last(), k);
        assert(s.drop_last().subrange(0, k) =~= s.subrange(0, k));
        lemma_digits_value_prefix(s.drop_last(), s.len() - 1);
        assert(s.drop_last().subrange(0, s.len() - 1) =~= s.drop_last());
        assert(is_ascii_digit(s[s.len() - 1]));
    }
}

/// Parses `s` as std's `str::parse` does for an unsigned integer type whose
/// largest value is `max`.
pub fn parse_unsigned_bounded(s: &str, max: u64) -> (r: Option<u64>)
    ensures
        match parse_unsigned(s@, max as int) {
            Some(v) => r == Some(v as u64),
            None => r is None,
        },
        r matches Some(n) ==> n <= max && parse_unsigned(s@, max as int) == Some(n as int),
{
    let len = s.unicode_len();
    let mut start: usize = 0;
    if len > 0 && s.get_char(0) == '+' {
        start = 1;
    }
    let ghost d = s@.subrange(start as int, len as int);
    assert(d =~= unsigned_digits(s@));
    if start == len {
        return None;
    }
    let mut value: u64 = 0;
    let mut i: usize = start;
    assert(d.subrange(0, 0) =~= Seq::<char>::empty());
    while i < len
        invariant
            start <= i <= len,
            len == s@.len(),
            d == s@.subrange(start as int, len as int),
            d =~= unsigned_digits(s@),
            value <= max,
            value == digits_value(d.subrange(0, i - start)),
            all_digits(d.subrange(0, i - start)),
        decreases len - i,
    {
        let c = s.get_char(i);
        let ghost k: int = i - start;
        assert(d[k] == c);
        if !(c >= '0' && c <= '9') {
            assert(!is_ascii_digit(d[k]));
            return None;
        }
        let dv = ((c as u32) - 48) as u64;
        let ghost next = d.subrange(0, k + 1);
        assert(next.drop_last() =~= d.subrange(0, k));
        assert(digits_value(next) == value * 10 + dv);
        assert(all_digits(next));
        if dv > max || value > (max - dv) / 10 {
            assert(value * 10 + dv > max) by (nonlinear_arith)
                requires
                    dv > max || value > (max - dv) / 10,
                    dv <= 9,
            ;
            proof {
                if all_digits(d) {
                    lemma_digits_value_prefix(d, k + 1);
                }
            }
            return None;
        }
        assert(value * 10 + dv <= max) by (nonlinear_arith)
            requires
                dv <= max,
                value <= (max - dv) / 10,
        ;
        value = value * 10 + dv;
        i = i + 1;
    }
    assert(d.subrange(0, i - start) =~= d);
    Some(value)
}


/// std's `char::is_whitespace`: the Unicode `White_Space` property.
pub open spec fn is_whitespace(c: char) -> bool {
    let u = c as u32;
    ||| 9 <= u <= 13
    ||| u == 0x20
    ||| u == 0x85
    ||| u == 0xA0
    ||| u == 0x1680
    ||| 0x2000 <= u <= 0x200A
    ||| u == 0x2028
    ||| u == 0x2029
    ||| u == 0x202F
    ||| u == 0x205F
    ||| u == 0x3000
}

/// The decimal rendering of a number is a nonempty run of digits whose value
/// is the number.
pub proof fn lemma_decimal_digits(n: nat)
    ensures
        decimal(n).len() > 0,
        all_digits(decimal(n)),
        digits_value(decimal(n)) == n,
    decreases n,
{
    let d = digit_char(n % 10);
    assert(d as u32 == 48 + n % 10);
    if n < 10 {
        assert(decimal(n).drop_last() =~= Seq::<char>::empty());
        assert(decimal(n).last() == d);
        assert(digits_value(decimal(n)) == digits_value(decimal(n).drop_last()) * 10 + ((d as u32) - 48));
    } else {
        lemma_decimal_digits(n / 10);
        assert(decimal(n).drop_last() =~= decimal(n / 10));
        assert(decimal(n).last() == d);
        assert(n == (n / 10) * 10 + n % 10);
        assert(digits_value(decimal(n)) == digits_value(decimal(n).drop_last()) * 10 + ((d as u32) - 48));
    }
}

/// Parsing the decimal rendering of a number gives the number back, when the
/// number fits the parsed type.
pub proof fn lemma_decimal_parses_back(n: nat, max: int)
    requires
        n <= max,
    ensures
        parse_unsigned(decimal(n), max) == Some(n as int),
{
    lemma_decimal_digits(n);
    assert(is_ascii_digit(decimal(n)[0]));
    assert(unsigned_digits(decimal(n)) == decimal(n));
}

/// A string that is empty once trimmed: every character is whitespace.
pub open spec fn is_blank(s: Seq<char>) -> bool {
    forall|i: int| 0 <= i < s.len() ==> is_whitespace(#[trigger] s[i])
}

fn char_is_whitespace(c: char) -> (r: bool)
    ensures
        r == is_whitespace(c),
{
    let u = c as u32;
    (9 <= u && u <= 13) || u == 0x20 || u == 0x85 || u == 0xA0 || u == 0x1680 || (0x2000 <= u
        && u <= 0x200A) || u == 0x2028 || u == 0x2029 || u == 0x202F || u == 0x205F || u == 0x3000
}

/// Whether `s.trim()` is empty, i.e. `s` holds only whitespace.
pub fn is_blank_str(s: &str) -> (r: bool)
    ensures
        r == is_blank(s@),
{
    let len = s.unicode_len();
    let mut i: usize = 0;
    while i < len
        invariant
            i <= len,
            len == s@.len(),
            forall|j: int| 0 <= j < i ==> is_whitespace(#[trigger] s@[j]),
        decreases len - i,
    {
        let c = s.get_char(i);
        if !char_is_whitespace(c) {
            return false;
        }
        i = i + 1;
    }
    true
}

/// Lexicographic order on byte strings (the order of `[u8]`, and so of
/// `str` and `String`): `a` sorts no later than `b`.
pub open spec fn bytes_le(a: Seq<u8>, b: Seq<u8>) -> bool
    decreases a.len(),
{
    if a.len() == 0 {
        true
    } else if b.len() == 0 {
        false
    } else if a[0] != b[0] {
        a[0] < b[0]
    } else {
        bytes_le(a.drop_first(), b.drop_first())
    }
}

/// Any two byte strings are ordered one way or the other.
pub proof fn lemma_bytes_le_total(a: Seq<u8>, b: Seq<u8>)
    ensures
        bytes_le(a, b) || bytes_le(b, a),
    decreases a.len(),
{
    if a.len() > 0 && b.len() > 0 && a[0] == b[0] {
        lemma_bytes_le_total(a.drop_first(), b.drop_first());
    }
}

/// The order is transitive.
pub proof fn lemma_bytes_le_transitive(a: Seq<u8>, b: Seq<u8>, c: Seq<u8>)
    requires
        bytes_le(a, b),
        bytes_le(b, c),
    ensures
        bytes_le(a, c),
    decreases a.len(),
{
    if a.len() > 0 && b.len() > 0 && c.len() > 0 && a[0] == b[0] && b[0] == c[0] {
        lemma_bytes_le_transitive(a.drop_first(), b.drop_first(), c.drop_first());
    }
}

/// The order is antisymmetric.
pub proof fn lemma_bytes_le_antisymmetric(a: Seq<u8>, b: Seq<u8>)
    requires
        bytes_le(a, b),
        bytes_le(b, a),
    ensures
        a == b,
    decreases a.len(),
{
    if a.len() > 0 && b.len() > 0 {
        lemma_bytes_le_antisymmetric(a.drop_first(), b.drop_first());
        assert(a =~= seq![a[0]] + a.drop_first());
        assert(b =~= seq![b[0]] + b.drop_first());
    }
}

/// `a` is a prefix of `b`, or they first differ at `k` where `a` has the
/// smaller byte.
pub open spec fn lex_before_at(a: Seq<u8>, b: Seq<u8>, k: int) -> bool {
    0 <= k < a.len() && k < b.len() && a.subrange(0, k) == b.subrange(0, k) && a[k] < b[k]
}

/// What the order means: `a` sorts no later than `b` exactly when `a` is a
/// prefix of `b`, or at the first position where they differ `a` has the
/// smaller byte.
pub proof fn lemma_bytes_le_meaning(a: Seq<u8>, b: Seq<u8>)
    ensures
        bytes_le(a, b) <==> (a.len() <= b.len() && a == b.subrange(0, a.len() as int)) || exists|
            k: int,
        | #[trigger] lex_before_at(a, b, k),
    decreases a.len(),
{
    if a.len() == 0 {
        assert(a =~= b.subrange(0, 0));
    } else if b.len() == 0 {
        assert forall|k: int| !#[trigger] lex_before_at(a, b, k) by {}
    } else if a[0] != b[0] {
        assert forall|k: int| #[trigger] lex_before_at(a, b, k) implies k == 0 by {
            if k > 0 {
                assert(a.subrange(0, k)[0] == b.subrange(0, k)[0]);
            }
        }
        if a[0] < b[0] {
            assert(a.subrange(0, 0) =~= b.subrange(0, 0));
            assert(lex_before_at(a, b, 0));
        }
        if a.len() <= b.len() && a == b.subrange(0, a.len() as int) {
            assert(a[0] == b.subrange(0, a.len() as int)[0]);
        }
    } else {
        let a1 = a.drop_first();
        let b1 = b.drop_first();
        lemma_bytes_le_meaning(a1, b1);
        if a1.len() <= b1.len() && a1 == b1.subrange(0, a1.len() as int) {
            assert forall|i: int| 0 <= i < a.len() implies a[i] == b.subrange(0, a.len() as int)[i] by {
                if i > 0 {
                    assert(a[i] == a1[i - 1]);
                    assert(a1[i - 1] == b1.subrange(0, a1.len() as int)[i - 1]);
                }
            }
            assert(a =~= b.subrange(0, a.len() as int));
        }
        if a.len() <= b.len() && a == b.subrange(0, a.len() as int) {
            assert(a1 =~= b1.subrange(0, a1.len() as int));
        }
        if exists|k: int| #[trigger] lex_before_at(a1, b1, k) {
            let k = choose|k: int| #[trigger] lex_before_at(a1, b1, k);
            assert(a.subrange(0, k + 1) =~= seq![a[0]] + a1.subrange(0, k));
            assert(b.subrange(0, k + 1) =~= seq![b[0]] + b1.subrange(0, k));
            assert(lex_before_at(a, b, k + 1));
        }
        if exists|k: int| #[trigger] lex_before_at(a, b, k) {
            let k = choose|k: int| #[trigger] lex_before_at(a, b, k);
            assert(k != 0);
            assert(a1.subrange(0, k - 1) =~= a.subrange(0, k).drop_first());
            assert(b1.subrange(0, k - 1) =~= b.subrange(0, k).drop_first());
            assert(lex_before_at(a1, b1, k - 1));
        }
    }
}

/// Compares two byte strings in lexicographic order.
pub fn bytes_le_exec(a: &[u8], b: &[u8]) -> (r: bool)
    ensures
        r == bytes_le(a@, b@),
{
    let mut i: usize = 0;
    assert(a@.skip(0) =~= a@);
    assert(b@.skip(0) =~= b@);
    while i < a.len() && i < b.len()
        invariant
            i <= a@.len(),
            i <= b@.len(),
            bytes_le(a@, b@) == bytes_le(a@.skip(i as int), b@.skip(i as int)),
        decreases a@.len() - i,
    {
        if a[i] != b[i] {
            return a[i] < b[i];
        }
        assert(a@.skip(i as int).drop_first() =~= a@.skip(i + 1));
        assert(b@.skip(i as int).drop_first() =~= b@.skip(i + 1));
        i = i + 1;
    }
    i == a.len()
}

} // verus!
