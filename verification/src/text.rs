//! Small verified helpers for working with text as sequences of characters.

use vstd::prelude::*;
use vstd::string::*;

verus! {

/// Appends one character to `s`.
///
/// Wraps `String::push` of the standard library, which appends the given
/// character to the end of the string.
#[verifier::external_body]
pub(crate) fn push_char(s: &mut String, c: char)
    ensures
        final(s)@ == old(s)@.push(c),
{
    s.push(c)
}

/// Collects the characters of `s` into a vector.
pub fn to_chars(s: &str) -> (v: Vec<char>)
    ensures
        v@ == s@,
{
    let mut v: Vec<char> = Vec::new();
    for c in it: s.chars()
        invariant
            v@ == it.seq().take(it.index() as int),
            it.seq() == s@,
    {
        v.push(c);
    }
    v
}

/// Builds a string from a vector of characters.
pub fn from_chars(v: &Vec<char>) -> (s: String)
    ensures
        s@ == v@,
{
    let mut s = String::new();
    let mut i: usize = 0;
    while i < v.len()
        invariant
            i <= v.len(),
            s@ == v@.take(i as int),
        decreases v.len() - i,
    {
        push_char(&mut s, v[i]);
        i = i + 1;
        assert(v@.take(i as int) == v@.take(i - 1).push(v@[i - 1]));
    }
    assert(v@.take(v.len() as int) == v@);
    s
}

/// Whether two string slices hold the same characters.
pub fn str_eq(a: &str, b: &str) -> (r: bool)
    ensures
        r == (a@ == b@),
{
    let x = to_chars(a);
    let y = to_chars(b);
    chars_eq(&x, &y)
}

/// Whether two vectors of characters are equal, element by element.
pub fn chars_eq(a: &Vec<char>, b: &Vec<char>) -> (r: bool)
    ensures
        r == (a@ == b@),
{
    if a.len() != b.len() {
        return false;
    }
    let mut i: usize = 0;
    while i < a.len()
        invariant
            i <= a.len(),
            a.len() == b.len(),
            a@.take(i as int) == b@.take(i as int),
        decreases a.len() - i,
    {
        if a[i] != b[i] {
            return false;
        }
        i = i + 1;
        assert(a@.take(i as int) == a@.take(i - 1).push(a@[i - 1]));
        assert(b@.take(i as int) == b@.take(i - 1).push(b@[i - 1]));
    }
    assert(a@.take(a.len() as int) == a@);
    assert(b@.take(b.len() as int) == b@);
    true
}

/// The decimal digit that stands for `d`, for `d` below ten.
pub open spec fn digit_char(d: nat) -> char {
    if d == 0 {
        '0'
    } else if d == 1 {
        '1'
    } else if d == 2 {
        '2'
    } else if d == 3 {
        '3'
    } else if d == 4 {
        '4'
    } else if d == 5 {
        '5'
    } else if d == 6 {
        '6'
    } else if d == 7 {
        '7'
    } else if d == 8 {
        '8'
    } else {
        '9'
    }
}

/// The decimal notation of `n`, without leading zeros.
pub open spec fn spec_decimal(n: nat) -> Seq<char>
    decreases n,
{
    if n < 10 {
        seq![digit_char(n)]
    } else {
        spec_decimal(n / 10).push(digit_char(n % 10))
    }
}

/// The decimal notation of a signed integer, with a leading minus sign for
/// negative values.
pub open spec fn spec_decimal_int(i: int) -> Seq<char> {
    if i < 0 {
        seq!['-'] + spec_decimal((-i) as nat)
    } else {
        spec_decimal(i as nat)
    }
}

fn digit_of(d: u64) -> (c: char)
    requires
        d < 10,
    ensures
        c == digit_char(d as nat),
{
    if d == 0 {
        '0'
    } else if d == 1 {
        '1'
    } else if d == 2 {
        '2'
    } else if d == 3 {
        '3'
    } else if d == 4 {
        '4'
    } else if d == 5 {
        '5'
    } else if d == 6 {
        '6'
    } else if d == 7 {
        '7'
    } else if d == 8 {
        '8'
    } else {
        '9'
    }
}

/// Appends the decimal notation of `n` to `out`.
pub fn push_decimal(out: &mut Vec<char>, n: u64)
    ensures
        final(out)@ == old(out)@ + spec_decimal(n as nat),
{
    let mut rev: Vec<char> = Vec::new();
    let mut m: u64 = n;
    while m >= 10
        invariant
            spec_decimal(n as nat) == spec_decimal(m as nat) + rev@.reverse(),
        decreases m,
    {
        let d = digit_of(m % 10);
        proof {
            let r2 = rev@.push(d);
            assert(r2.reverse() == seq![d] + rev@.reverse());
            assert(spec_decimal(m as nat) == spec_decimal((m / 10) as nat).push(d));
            assert(spec_decimal((m / 10) as nat).push(d) + rev@.reverse() == spec_decimal(
                (m / 10) as nat,
            ) + r2.reverse());
        }
        rev.push(d);
        m = m / 10;
    }
    let last = digit_of(m);
    out.push(last);
    let ghost base = old(out)@.push(last);
    assert(spec_decimal(m as nat) == seq![last]);
    let mut i: usize = rev.len();
    while i > 0
        invariant
            i <= rev.len(),
            out@ == base + rev@.reverse().take(rev.len() - i),
        decreases i,
    {
        i = i - 1;
        out.push(rev[i]);
        proof {
            let r = rev@.reverse();
            let k = rev.len() - i;
            assert(r.take(k as int) == r.take(k - 1).push(r[k - 1]));
            assert(r[k - 1] == rev@[i as int]);
        }
    }
    proof {
        let r = rev@.reverse();
        assert(r.take(rev.len() as int) == r);
        assert(base + r == old(out)@ + (seq![last] + r));
    }
}

/// The decimal notation of `n`.
pub fn decimal(n: u64) -> (s: String)
    ensures
        s@ == spec_decimal(n as nat),
{
    let mut v: Vec<char> = Vec::new();
    push_decimal(&mut v, n);
    assert(Seq::<char>::empty() + spec_decimal(n as nat) == spec_decimal(n as nat));
    from_chars(&v)
}

/// Appends every character of `src` to `out`.
pub fn push_all(out: &mut Vec<char>, src: &Vec<char>)
    ensures
        final(out)@ == old(out)@ + src@,
{
    let mut i: usize = 0;
    while i < src.len()
        invariant
            i <= src.len(),
            out@ == old(out)@ + src@.take(i as int),
        decreases src.len() - i,
    {
        out.push(src[i]);
        i = i + 1;
        assert(src@.take(i as int) == src@.take(i - 1).push(src@[i - 1]));
    }
    assert(src@.take(src.len() as int) == src@);
}

/// Appends the characters of the string slice `s` to `out`.
pub fn push_str(out: &mut Vec<char>, s: &str)
    ensures
        final(out)@ == old(out)@ + s@,
{
    let v = to_chars(s);
    push_all(out, &v);
}

/// The outcome of comparing two values.
#[derive(Debug, Clone, Copy, PartialEq, Eq, Structural)]
pub enum Order {
    Less,
    Equal,
    Greater,
}

/// Lexicographic order on text: `a` comes strictly before `b` when, at the
/// first position where they differ, `a` has the smaller character, or when
/// `a` is a proper prefix of `b`.
pub open spec fn lex_lt(a: Seq<char>, b: Seq<char>) -> bool
    decreases a.len(),
{
    if b.len() == 0 {
        false
    } else if a.len() == 0 {
        true
    } else if a[0] != b[0] {
        a[0] < b[0]
    } else {
        lex_lt(a.drop_first(), b.drop_first())
    }
}

/// No text comes before itself.
pub proof fn lemma_lex_irreflexive(a: Seq<char>)
    ensures
        !lex_lt(a, a),
    decreases a.len(),
{
    if a.len() > 0 {
        lemma_lex_irreflexive(a.drop_first());
    }
}

/// The lexicographic order is transitive.
pub proof fn lemma_lex_transitive(a: Seq<char>, b: Seq<char>, c: Seq<char>)
    requires
        lex_lt(a, b),
        lex_lt(b, c),
    ensures
        lex_lt(a, c),
    decreases a.len(),
{
    if a.len() > 0 && a[0] == b[0] && b[0] == c[0] {
        lemma_lex_transitive(a.drop_first(), b.drop_first(), c.drop_first());
    }
}

/// Any two texts are equal or ordered one way or the other.
pub proof fn lemma_lex_total(a: Seq<char>, b: Seq<char>)
    ensures
        lex_lt(a, b) || a == b || lex_lt(b, a),
    decreases a.len(),
{
    if a.len() > 0 && b.len() > 0 && a[0] == b[0] {
        lemma_lex_total(a.drop_first(), b.drop_first());
        if a.drop_first() == b.drop_first() {
            assert(a =~= seq![a[0]] + a.drop_first());
            assert(b =~= seq![b[0]] + b.drop_first());
        }
    } else if a.len() == 0 && b.len() == 0 {
        assert(a =~= b);
    }
}

/// Two texts are never ordered both ways.
pub proof fn lemma_lex_asymmetric(a: Seq<char>, b: Seq<char>)
    requires
        lex_lt(a, b),
    ensures
        !lex_lt(b, a),
    decreases a.len(),
{
    if a.len() > 0 && b.len() > 0 && a[0] == b[0] {
        lemma_lex_asymmetric(a.drop_first(), b.drop_first());
    }
}

proof fn lemma_lex_skip(a: Seq<char>, b: Seq<char>, i: int)
    requires
        0 <= i <= a.len(),
        i <= b.len(),
        a.take(i) == b.take(i),
    ensures
        lex_lt(a, b) == lex_lt(a.skip(i), b.skip(i)),
        lex_lt(b, a) == lex_lt(b.skip(i), a.skip(i)),
    decreases i,
{
    if i > 0 {
        assert(a.take(i - 1) == a.take(i).take(i - 1));
        assert(b.take(i - 1) == b.take(i).take(i - 1));
        lemma_lex_skip(a, b, i - 1);
        assert(a[i - 1] == a.take(i)[i - 1]);
        assert(b[i - 1] == b.take(i)[i - 1]);
        assert(a.skip(i - 1).drop_first() == a.skip(i));
        assert(b.skip(i - 1).drop_first() == b.skip(i));
        assert(a.skip(i - 1)[0] == a[i - 1]);
        assert(b.skip(i - 1)[0] == b[i - 1]);
    } else {
        assert(a.skip(0) == a);
        assert(b.skip(0) == b);
    }
}

/// Compares two texts lexicographically.
pub fn compare_chars(a: &Vec<char>, b: &Vec<char>) -> (r: Order)
    ensures
        r == Order::Less <==> lex_lt(a@, b@),
        r == Order::Equal <==> a@ == b@,
        r == Order::Greater <==> lex_lt(b@, a@),
{
    proof {
        lemma_lex_total(a@, b@);
        lemma_lex_irreflexive(a@);
        if lex_lt(a@, b@) {
            lemma_lex_asymmetric(a@, b@);
        }
    }
    let mut i: usize = 0;
    while i < a.len() && i < b.len()
        invariant
            i <= a.len(),
            i <= b.len(),
            a@.take(i as int) == b@.take(i as int),
        decreases a.len() - i,
    {
        if a[i] != b[i] {
            proof {
                lemma_lex_skip(a@, b@, i as int);
            }
            if a[i] < b[i] {
                return Order::Less;
            } else {
                return Order::Greater;
            }
        }
        i = i + 1;
        assert(a@.take(i as int) == a@.take(i - 1).push(a@[i - 1]));
        assert(b@.take(i as int) == b@.take(i - 1).push(b@[i - 1]));
    }
    proof {
        lemma_lex_skip(a@, b@, i as int);
    }
    if i < b.len() {
        Order::Less
    } else if i < a.len() {
        Order::Greater
    } else {
        assert(a@.take(i as int) == a@);
        assert(b@.take(i as int) == b@);
        Order::Equal
    }
}

/// Compares two string slices lexicographically.
pub fn compare_str(a: &str, b: &str) -> (r: Order)
    ensures
        r == Order::Less <==> lex_lt(a@, b@),
        r == Order::Equal <==> a@ == b@,
        r == Order::Greater <==> lex_lt(b@, a@),
{
    let x = to_chars(a);
    let y = to_chars(b);
    compare_chars(&x, &y)
}

/// Whether `text` ends with `suffix`.
pub open spec fn ends_with(text: Seq<char>, suffix: Seq<char>) -> bool {
    suffix.len() <= text.len() && text.subrange(text.len() - suffix.len(), text.len() as int)
        == suffix
}

/// Whether `text` starts with `prefix`.
pub open spec fn starts_with(text: Seq<char>, prefix: Seq<char>) -> bool {
    prefix.len() <= text.len() && text.subrange(0, prefix.len() as int) == prefix
}

/// Whether `text` holds `part` at position `at`.
pub fn matches_at(text: &Vec<char>, at: usize, part: &Vec<char>) -> (r: bool)
    requires
        at <= text.len(),
    ensures
        r == (at + part.len() <= text.len() && text@.subrange(at as int, at + part.len())
            == part@),
{
    if part.len() > text.len() - at {
        return false;
    }
    let mut i: usize = 0;
    while i < part.len()
        invariant
            i <= part.len(),
            at + part.len() <= text.len(),
            text@.subrange(at as int, at + i) == part@.take(i as int),
        decreases part.len() - i,
    {
        if text[at + i] != part[i] {
            assert(text@.subrange(at as int, at + part.len())[i as int] != part@[i as int]);
            return false;
        }
        i = i + 1;
        assert(text@.subrange(at as int, at + i) == text@.subrange(at as int, at + i - 1).push(
            text@[at + i - 1],
        ));
        assert(part@.take(i as int) == part@.take(i - 1).push(part@[i - 1]));
    }
    assert(part@.take(part.len() as int) == part@);
    true
}

/// Whether the text ends with `suffix`.
pub fn has_suffix(text: &Vec<char>, suffix: &Vec<char>) -> (r: bool)
    ensures
        r == ends_with(text@, suffix@),
{
    if suffix.len() > text.len() {
        false
    } else {
        matches_at(text, text.len() - suffix.len(), suffix)
    }
}

/// Whether the text starts with `prefix`.
pub fn has_prefix(text: &Vec<char>, prefix: &Vec<char>) -> (r: bool)
    ensures
        r == starts_with(text@, prefix@),
{
    matches_at(text, 0, prefix)
}

/// The characters of `v` from position `from` on.
pub fn tail_from(v: &Vec<char>, from: usize) -> (r: Vec<char>)
    requires
        from <= v.len(),
    ensures
        r@ == v@.skip(from as int),
{
    let mut r: Vec<char> = Vec::new();
    let mut i: usize = from;
    while i < v.len()
        invariant
            from <= i <= v.len(),
            r@ == v@.subrange(from as int, i as int),
        decreases v.len() - i,
    {
        r.push(v[i]);
        i = i + 1;
        assert(v@.subrange(from as int, i as int) == v@.subrange(from as int, i - 1).push(
            v@[i - 1],
        ));
    }
    assert(v@.subrange(from as int, v.len() as int) == v@.skip(from as int));
    r
}

/// The first characters of `v`, up to position `to`.
pub fn head_to(v: &Vec<char>, to: usize) -> (r: Vec<char>)
    requires
        to <= v.len(),
    ensures
        r@ == v@.take(to as int),
{
    let mut r: Vec<char> = Vec::new();
    let mut i: usize = 0;
    while i < to
        invariant
            i <= to <= v.len(),
            r@ == v@.take(i as int),
        decreases to - i,
    {
        r.push(v[i]);
        i = i + 1;
        assert(v@.take(i as int) == v@.take(i - 1).push(v@[i - 1]));
    }
    r
}

/// What is left of `text` once every leading repetition of `prefix` is
/// taken off. An empty prefix takes nothing off.
pub open spec fn strip_prefix_all(text: Seq<char>, prefix: Seq<char>) -> Seq<char>
    decreases text.len(),
{
    if prefix.len() > 0 && starts_with(text, prefix) {
        strip_prefix_all(text.skip(prefix.len() as int), prefix)
    } else {
        text
    }
}

/// Takes every leading repetition of `prefix` off `text`.
pub fn strip_repeated_prefix(text: &Vec<char>, prefix: &Vec<char>) -> (r: Vec<char>)
    ensures
        r@ == strip_prefix_all(text@, prefix@),
{
    let mut at: usize = 0;
    if prefix.len() > 0 {
        assert(text@.skip(0) == text@);
        while matches_at(text, at, prefix)
            invariant
                at <= text.len(),
                prefix.len() > 0,
                strip_prefix_all(text@, prefix@) == strip_prefix_all(
                    text@.skip(at as int),
                    prefix@,
                ),
            decreases text.len() - at,
        {
            proof {
                let rest = text@.skip(at as int);
                assert(rest.subrange(0, prefix.len() as int) == text@.subrange(
                    at as int,
                    at + prefix.len(),
                ));
                assert(rest.skip(prefix.len() as int) == text@.skip(at + prefix.len()));
            }
            at = at + prefix.len();
        }
        proof {
            let rest = text@.skip(at as int);
            if prefix.len() <= rest.len() {
                assert(rest.subrange(0, prefix.len() as int) == text@.subrange(
                    at as int,
                    at + prefix.len(),
                ));
            }
        }
    } else {
        assert(text@.skip(0) == text@);
    }
    tail_from(text, at)
}

/// The position after the last `/` in `text`, or 0 where it holds none.
pub open spec fn last_segment_start(text: Seq<char>) -> int
    decreases text.len(),
{
    if text.len() == 0 {
        0
    } else if text.last() == '/' {
        text.len() as int
    } else {
        last_segment_start(text.drop_last())
    }
}

/// What follows the last `/` in `text`; all of it where it holds none.
pub open spec fn last_segment(text: Seq<char>) -> Seq<char> {
    text.skip(last_segment_start(text))
}

proof fn lemma_last_segment_start(text: Seq<char>, k: int)
    requires
        0 <= k <= text.len(),
        forall|j: int| k <= j < text.len() ==> text[j] != '/',
        k == 0 || text[k - 1] == '/',
    ensures
        last_segment_start(text) == k,
    decreases text.len(),
{
    if text.len() > 0 && k < text.len() {
        let t = text.drop_last();
        lemma_last_segment_start(t, k);
    }
}

/// What follows the last `/` in `text`.
pub fn last_path_segment(text: &Vec<char>) -> (r: Vec<char>)
    ensures
        r@ == last_segment(text@),
{
    let mut k: usize = text.len();
    while k > 0 && text[k - 1] != '/'
        invariant
            k <= text.len(),
            forall|j: int| k <= j < text.len() ==> text@[j] != '/',
        decreases k,
    {
        k = k - 1;
    }
    proof {
        lemma_last_segment_start(text@, k as int);
    }
    tail_from(text, k)
}

/// The lower-case form of an ASCII capital; any other character as it is.
pub open spec fn lower_char(c: char) -> char {
    if 'A' <= c <= 'Z' {
        ((c as u8) + 32) as char
    } else {
        c
    }
}

/// `text` with its ASCII capitals in lower case.
pub open spec fn ascii_lower(text: Seq<char>) -> Seq<char> {
    text.map_values(|c: char| lower_char(c))
}

/// Turns the ASCII capitals of `text` into lower case.
pub fn to_ascii_lower(text: &Vec<char>) -> (r: Vec<char>)
    ensures
        r@ == ascii_lower(text@),
{
    let mut r: Vec<char> = Vec::new();
    let mut i: usize = 0;
    while i < text.len()
        invariant
            i <= text.len(),
            r@ == ascii_lower(text@.take(i as int)),
        decreases text.len() - i,
    {
        let c = text[i];
        let l = if 'A' <= c && c <= 'Z' {
            ((c as u8) + 32) as char
        } else {
            c
        };
        r.push(l);
        i = i + 1;
        assert(text@.take(i as int) == text@.take(i - 1).push(text@[i - 1]));
        assert(ascii_lower(text@.take(i as int)) == ascii_lower(text@.take(i - 1)).push(
            lower_char(text@[i - 1]),
        ));
    }
    assert(text@.take(text.len() as int) == text@);
    r
}

/// The number that a decimal digit stands for; `None` for any other
/// character.
pub open spec fn digit_value(c: char) -> Option<nat> {
    if '0' <= c <= '9' {
        Some((c as nat - '0' as nat) as nat)
    } else {
        None
    }
}

/// The number that a run of decimal digits denotes; `None` for the empty
/// text and for a text that holds anything but digits.
pub open spec fn decimal_value(s: Seq<char>) -> Option<nat>
    decreases s.len(),
{
    if s.len() == 0 {
        None
    } else if s.len() == 1 {
        digit_value(s[0])
    } else {
        match (decimal_value(s.drop_last()), digit_value(s.last())) {
            (Some(high), Some(low)) => Some(high * 10 + low),
            _ => None,
        }
    }
}

proof fn lemma_decimal_value_prefix(s: Seq<char>, i: int)
    requires
        1 <= i <= s.len(),
        decimal_value(s) is Some,
    ensures
        decimal_value(s.take(i)) is Some,
        decimal_value(s.take(i))->0 <= decimal_value(s)->0,
    decreases s.len(),
{
    if i == s.len() {
        assert(s.take(i) == s);
    } else {
        assert(s.len() > 1);
        lemma_decimal_value_prefix(s.drop_last(), i);
        assert(s.drop_last().take(i) == s.take(i));
    }
}

/// Reads a run of decimal digits as a number; `None` for the empty text,
/// for a text that holds anything but digits, and for a number too large
/// for 64 bits.
pub fn parse_u64(s: &Vec<char>) -> (r: Option<u64>)
    ensures
        r == match decimal_value(s@) {
            Some(n) => if n <= u64::MAX {
                Some(n as u64)
            } else {
                None
            },
            None => None,
        },
{
    if s.len() == 0 {
        return None;
    }
    let mut acc: u64 = 0;
    let mut i: usize = 0;
    while i < s.len()
        invariant
            i <= s.len(),
            s.len() > 0,
            i > 0 ==> decimal_value(s@.take(i as int)) == Some(acc as nat),
            i == 0 ==> acc == 0,
        decreases s.len() - i,
    {
        let c = s[i];
        let ghost next = s@.take(i + 1);
        assert(next.last() == c);
        assert(next.drop_last() == s@.take(i as int));
        if !('0' <= c && c <= '9') {
            proof {
                if decimal_value(s@) is Some {
                    lemma_decimal_value_prefix(s@, i + 1);
                }
            }
            return None;
        }
        let d: u64 = (c as u64) - ('0' as u64);
        if acc > (u64::MAX - d) / 10 {
            proof {
                if decimal_value(s@) is Some {
                    lemma_decimal_value_prefix(s@, i + 1);
                }
            }
            return None;
        }
        acc = acc * 10 + d;
        i = i + 1;
    }
    assert(s@.take(s.len() as int) == s@);
    Some(acc)
}

/// What is left of `text` once every trailing repetition of `suffix` is
/// taken off. An empty suffix takes nothing off.
pub open spec fn strip_suffix_all(text: Seq<char>, suffix: Seq<char>) -> Seq<char>
    decreases text.len(),
{
    if suffix.len() > 0 && ends_with(text, suffix) {
        strip_suffix_all(text.take(text.len() - suffix.len()), suffix)
    } else {
        text
    }
}

/// Takes every trailing repetition of `suffix` off `text`.
pub fn strip_repeated_suffix(text: &Vec<char>, suffix: &Vec<char>) -> (r: Vec<char>)
    ensures
        r@ == strip_suffix_all(text@, suffix@),
{
    let mut end: usize = text.len();
    assert(text@.take(end as int) == text@);
    if suffix.len() > 0 {
        while end >= suffix.len() && matches_at(text, end - suffix.len(), suffix)
            invariant
                end <= text.len(),
                suffix.len() > 0,
                strip_suffix_all(text@, suffix@) == strip_suffix_all(
                    text@.take(end as int),
                    suffix@,
                ),
            decreases end,
        {
            proof {
                let cur = text@.take(end as int);
                assert(cur.subrange(cur.len() - suffix.len(), cur.len() as int) == text@.subrange(
                    end - suffix.len(),
                    end as int,
                ));
                assert(cur.take(cur.len() - suffix.len()) == text@.take(end - suffix.len()));
            }
            end = end - suffix.len();
        }
        proof {
            let cur = text@.take(end as int);
            if suffix.len() <= cur.len() {
                assert(cur.subrange(cur.len() - suffix.len(), cur.len() as int) == text@.subrange(
                    end - suffix.len(),
                    end as int,
                ));
            }
        }
    }
    head_to(text, end)
}

/// `text` with every `from` replaced by `to`.
pub open spec fn replace_char(text: Seq<char>, from: char, to: char) -> Seq<char> {
    text.map_values(
        |c: char|
            if c == from {
                to
            } else {
                c
            },
    )
}

/// Replaces every `from` in `text` by `to`.
pub fn replace_each(text: &Vec<char>, from: char, to: char) -> (r: Vec<char>)
    ensures
        r@ == replace_char(text@, from, to),
{
    let mut r: Vec<char> = Vec::new();
    let mut i: usize = 0;
    while i < text.len()
        invariant
            i <= text.len(),
            r@ == replace_char(text@.take(i as int), from, to),
        decreases text.len() - i,
    {
        let c = text[i];
        r.push(
            if c == from {
                to
            } else {
                c
            },
        );
        i = i + 1;
        assert(text@.take(i as int) == text@.take(i - 1).push(text@[i - 1]));
        assert(replace_char(text@.take(i as int), from, to) == replace_char(
            text@.take(i - 1),
            from,
            to,
        ).push(
            if text@[i - 1] == from {
                to
            } else {
                text@[i - 1]
            },
        ));
    }
    assert(text@.take(text.len() as int) == text@);
    r
}

/// White space, as Unicode defines it.
pub open spec fn is_space(c: char) -> bool {
    ||| '\u{9}' <= c <= '\u{d}'
    ||| c == ' '
    ||| c == '\u{85}'
    ||| c == '\u{a0}'
    ||| c == '\u{1680}'
    ||| '\u{2000}' <= c <= '\u{200a}'
    ||| c == '\u{2028}'
    ||| c == '\u{2029}'
    ||| c == '\u{202f}'
    ||| c == '\u{205f}'
    ||| c == '\u{3000}'
}

/// Whether a character is white space.
pub fn is_whitespace(c: char) -> (r: bool)
    ensures
        r == is_space(c),
{
    ('\u{9}' <= c && c <= '\u{d}') || c == ' ' || c == '\u{85}' || c == '\u{a0}' || c
        == '\u{1680}' || ('\u{2000}' <= c && c <= '\u{200a}') || c == '\u{2028}' || c
        == '\u{2029}' || c == '\u{202f}' || c == '\u{205f}' || c == '\u{3000}'
}

/// `text` without the white space at its end.
pub open spec fn trimmed_end(text: Seq<char>) -> Seq<char>
    decreases text.len(),
{
    if text.len() > 0 && is_space(text.last()) {
        trimmed_end(text.drop_last())
    } else {
        text
    }
}

/// Takes the white space off the end of `text`.
pub fn trim_end(text: &Vec<char>) -> (r: Vec<char>)
    ensures
        r@ == trimmed_end(text@),
{
    let mut end: usize = text.len();
    assert(text@.take(end as int) == text@);
    while end > 0 && is_whitespace(text[end - 1])
        invariant
            end <= text.len(),
            trimmed_end(text@) == trimmed_end(text@.take(end as int)),
        decreases end,
    {
        assert(text@.take(end as int).drop_last() == text@.take(end - 1));
        end = end - 1;
    }
    head_to(text, end)
}

/// The integer that a text denotes: a run of decimal digits, after a minus
/// sign for the negative of it; `None` for any other text.
pub open spec fn int_value(s: Seq<char>) -> Option<int> {
    if s.len() > 0 && s[0] == '-' {
        match decimal_value(s.skip(1)) {
            Some(n) => Some(-(n as int)),
            None => None,
        }
    } else {
        match decimal_value(s) {
            Some(n) => Some(n as int),
            None => None,
        }
    }
}

/// Appends the decimal notation of a signed integer to `out`.
pub fn push_decimal_int(out: &mut Vec<char>, i: i64)
    ensures
        final(out)@ == old(out)@ + spec_decimal_int(i as int),
{
    if i < 0 {
        out.push('-');
        let magnitude: u64 = if i == i64::MIN {
            9223372036854775808u64
        } else {
            (-i) as u64
        };
        push_decimal(out, magnitude);
        assert(old(out)@.push('-') + spec_decimal(magnitude as nat) == old(out)@ + (seq!['-']
            + spec_decimal(magnitude as nat)));
    } else {
        push_decimal(out, i as u64);
    }
}

/// The decimal notation of a signed integer.
pub fn decimal_int(i: i64) -> (s: String)
    ensures
        s@ == spec_decimal_int(i as int),
{
    let mut v: Vec<char> = Vec::new();
    push_decimal_int(&mut v, i);
    assert(Seq::<char>::empty() + spec_decimal_int(i as int) == spec_decimal_int(i as int));
    from_chars(&v)
}

/// Reads a signed integer in decimal notation; `None` for a text that
/// denotes none, and for a number that does not fit 64 bits.
pub fn parse_i64(s: &Vec<char>) -> (r: Option<i64>)
    ensures
        r == match int_value(s@) {
            Some(n) => if i64::MIN <= n <= i64::MAX {
                Some(n as i64)
            } else {
                None
            },
            None => None,
        },
{
    if s.len() > 0 && s[0] == '-' {
        let rest = tail_from(s, 1);
        match parse_u64(&rest) {
            Some(n) => {
                if n > 9223372036854775808u64 {
                    None
                } else if n == 9223372036854775808u64 {
                    Some(i64::MIN)
                } else {
                    Some(-(n as i64))
                }
            },
            None => {
                proof {
                    if decimal_value(rest@) is Some {
                        assert(decimal_value(rest@)->0 > u64::MAX);
                    }
                }
                None
            },
        }
    } else {
        match parse_u64(s) {
            Some(n) => {
                if n > i64::MAX as u64 {
                    None
                } else {
                    Some(n as i64)
                }
            },
            None => None,
        }
    }
}

} // verus!
