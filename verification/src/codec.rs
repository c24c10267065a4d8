//! The serialized form of parsed metadata: a list of text fields, each
//! written as its length in decimal, a colon, and its characters.

use crate::text::{int_value, spec_decimal_int, decimal_value, digit_char, digit_value, from_chars, head_to, parse_u64, push_all, push_decimal, spec_decimal, tail_from, to_chars};
use vstd::prelude::*;

verus! {

/// One field in serialized form.
pub open spec fn encode_field(field: Seq<char>) -> Seq<char> {
    spec_decimal(field.len()) + seq![':'] + field
}

/// A list of fields in serialized form.
pub open spec fn encode_fields(fields: Seq<Seq<char>>) -> Seq<char>
    decreases fields.len(),
{
    if fields.len() == 0 {
        Seq::empty()
    } else {
        encode_field(fields[0]) + encode_fields(fields.drop_first())
    }
}

/// The place of the first colon in `text`; its length where it has none.
pub open spec fn first_colon(text: Seq<char>) -> int
    decreases text.len(),
{
    if text.len() == 0 {
        0
    } else if text[0] == ':' {
        0
    } else {
        1 + first_colon(text.drop_first())
    }
}

/// The list of fields that a serialized form holds; `None` where the text
/// is no serialized form.
pub open spec fn decode_fields(text: Seq<char>) -> Option<Seq<Seq<char>>>
    decreases text.len(),
{
    if text.len() == 0 {
        Some(Seq::empty())
    } else {
        let k = first_colon(text);
        match decimal_value(text.take(k)) {
            Some(n) => if 0 <= k < text.len() && k + 1 + n <= text.len() {
                match decode_fields(text.skip(k + 1 + n)) {
                    Some(rest) => Some(seq![text.subrange(k + 1, k + 1 + n)] + rest),
                    None => None,
                }
            } else {
                None
            },
            None => None,
        }
    }
}

/// The views of a list of strings.
pub open spec fn strings_view(fields: Seq<String>) -> Seq<Seq<char>> {
    Seq::new(fields.len(), |i: int| fields[i]@)
}

/// The decimal notation of a number reads back as that number.
pub proof fn lemma_decimal_roundtrip(n: nat)
    ensures
        decimal_value(spec_decimal(n)) == Some(n),
        forall|i: int| 0 <= i < spec_decimal(n).len() ==> '0' <= #[trigger] spec_decimal(n)[i] <= '9',
        spec_decimal(n).len() > 0,
    decreases n,
{
    if n < 10 {
        assert(digit_value(digit_char(n)) == Some(n));
    } else {
        lemma_decimal_roundtrip(n / 10);
        let s = spec_decimal(n);
        assert(s.drop_last() == spec_decimal(n / 10));
        assert(s.last() == digit_char(n % 10));
        assert(digit_value(digit_char(n % 10)) == Some(n % 10));
    }
}

proof fn lemma_first_colon(text: Seq<char>, k: int)
    requires
        0 <= k <= text.len(),
        forall|j: int| 0 <= j < k ==> text[j] != ':',
        k == text.len() || text[k] == ':',
    ensures
        first_colon(text) == k,
    decreases k,
{
    if k > 0 {
        lemma_first_colon(text.drop_first(), k - 1);
    }
}

/// Decoding what was encoded gives the fields back.
pub proof fn lemma_decode_encode(fields: Seq<Seq<char>>)
    ensures
        decode_fields(encode_fields(fields)) == Some(fields),
    decreases fields.len(),
{
    if fields.len() == 0 {
    } else {
        let f = fields[0];
        let rest = fields.drop_first();
        let d = spec_decimal(f.len());
        let tail = encode_fields(rest);
        let text = encode_fields(fields);
        lemma_decimal_roundtrip(f.len());
        lemma_decode_encode(rest);
        assert(text == d + seq![':'] + f + tail);
        let k = d.len() as int;
        assert(text[k] == ':');
        assert forall|j: int| 0 <= j < k implies text[j] != ':' by {
            assert(text[j] == d[j]);
        }
        lemma_first_colon(text, k);
        assert(text.take(k) == d);
        assert(text.subrange(k + 1, k + 1 + f.len()) == f);
        assert(text.skip(k + 1 + f.len()) == tail);
        assert(seq![f] + rest == fields);
    }
}

/// Writes a list of fields in serialized form.
pub fn encode(fields: &Vec<String>) -> (r: String)
    ensures
        r@ == encode_fields(strings_view(fields@)),
{
    let ghost all = strings_view(fields@);
    let mut out: Vec<char> = Vec::new();
    let mut parts: Vec<Vec<char>> = Vec::new();
    let mut k: usize = 0;
    while k < fields.len()
        invariant
            k <= fields.len(),
            all == strings_view(fields@),
            parts@.len() == k,
            forall|m: int| 0 <= m < k ==> (#[trigger] parts@[m])@ == encode_field(all[m]),
        decreases fields.len() - k,
    {
        let chars = to_chars(fields[k].as_str());
        let mut part: Vec<char> = Vec::new();
        push_decimal(&mut part, chars.len() as u64);
        part.push(':');
        push_all(&mut part, &chars);
        assert(part@ == encode_field(all[k as int]));
        parts.push(part);
        k = k + 1;
    }
    let mut j: usize = 0;
    assert(all.take(0) == Seq::<Seq<char>>::empty());
    while j < parts.len()
        invariant
            j <= parts.len(),
            parts@.len() == all.len(),
            forall|m: int| 0 <= m < parts@.len() ==> (#[trigger] parts@[m])@ == encode_field(all[m]),
            out@ == encode_fields(all.take(j as int)),
        decreases parts.len() - j,
    {
        push_all(&mut out, &parts[j]);
        proof {
            lemma_encode_push(all.take(j as int), all[j as int]);
            assert(all.take(j as int).push(all[j as int]) == all.take(j + 1));
        }
        j = j + 1;
    }
    assert(all.take(all.len() as int) == all);
    from_chars(&out)
}

proof fn lemma_encode_push(fields: Seq<Seq<char>>, last: Seq<char>)
    ensures
        encode_fields(fields.push(last)) == encode_fields(fields) + encode_field(last),
    decreases fields.len(),
{
    if fields.len() == 0 {
        assert(fields.push(last).drop_first() == Seq::<Seq<char>>::empty());
        assert(encode_fields(Seq::<Seq<char>>::empty()) == Seq::<char>::empty());
        assert(encode_fields(fields.push(last)) == encode_field(last) + Seq::<char>::empty());
    } else {
        lemma_encode_push(fields.drop_first(), last);
        assert(fields.push(last).drop_first() == fields.drop_first().push(last));
        assert(fields.push(last)[0] == fields[0]);
        assert(encode_field(fields[0]) + (encode_fields(fields.drop_first()) + encode_field(last))
            == encode_field(fields[0]) + encode_fields(fields.drop_first()) + encode_field(last));
    }
}

/// Reads a list of fields from its serialized form; `None` where the text
/// is no serialized form.
pub fn decode(text: &str) -> (r: Option<Vec<String>>)
    ensures
        match r {
            Some(fields) => decode_fields(text@) == Some(strings_view(fields@)),
            None => decode_fields(text@) is None,
        },
{
    let chars = to_chars(text);
    let mut out: Vec<String> = Vec::new();
    let mut p: usize = 0;
    assert(chars@.skip(0) == chars@);
    assert(Seq::<Seq<char>>::empty() + decode_fields(chars@)->0 == decode_fields(chars@)->0);
    while p < chars.len()
        invariant
            p <= chars.len(),
            chars@ == text@,
            decode_fields(text@) == match decode_fields(chars@.skip(p as int)) {
                Some(rest) => Some(strings_view(out@) + rest),
                None => None,
            },
        decreases chars.len() - p,
    {
        let ghost here = chars@.skip(p as int);
        let mut k: usize = p;
        while k < chars.len() && chars[k] != ':'
            invariant
                p <= k <= chars.len(),
                forall|j: int| p <= j < k ==> chars@[j] != ':',
            decreases chars.len() - k,
        {
            k = k + 1;
        }
        proof {
            lemma_first_colon(here, k - p);
            assert(here.take(k - p) == chars@.subrange(p as int, k as int));
        }
        let digits = tail_from(&head_to(&chars, k), p);
        assert(digits@ == chars@.subrange(p as int, k as int));
        let Some(n) = parse_u64(&digits) else {
            return None;
        };
        if k >= chars.len() || n > (chars.len() - k - 1) as u64 {
            return None;
        }
        let start: usize = k + 1;
        let end: usize = start + n as usize;
        let field = tail_from(&head_to(&chars, end), start);
        proof {
            assert(field@ == chars@.subrange(start as int, end as int));
            assert(here.subrange(k - p + 1, k - p + 1 + n) == field@);
            assert(here.skip(k - p + 1 + n) == chars@.skip(end as int));
            let rest = decode_fields(chars@.skip(end as int));
            if rest is Some {
                assert(strings_view(out@).push(field@) + rest->0 == strings_view(out@) + (
                seq![field@] + rest->0));
            }
        }
        let ghost before = strings_view(out@);
        out.push(from_chars(&field));
        assert(strings_view(out@) == before.push(field@));
        p = end;
    }
    assert(chars@.skip(p as int) == Seq::<char>::empty());
    assert(strings_view(out@) + Seq::<Seq<char>>::empty() == strings_view(out@));
    Some(out)
}

/// The decimal notation of an integer reads back as that integer.
pub proof fn lemma_decimal_int_roundtrip(i: int)
    ensures
        int_value(spec_decimal_int(i)) == Some(i),
{
    if i < 0 {
        let n = (-i) as nat;
        lemma_decimal_roundtrip(n);
        let s = spec_decimal_int(i);
        assert(s.skip(1) == spec_decimal(n));
    } else {
        lemma_decimal_roundtrip(i as nat);
        assert(spec_decimal(i as nat)[0] != '-');
    }
}

/// An optional text as a field: a plus sign and the text, or a minus sign
/// for none.
pub open spec fn optional_field(text: Option<Seq<char>>) -> Seq<char> {
    match text {
        Some(t) => seq!['+'] + t,
        None => seq!['-'],
    }
}

/// The optional text that a field stands for; `None` where the field
/// stands for none.
pub open spec fn optional_of_field(field: Seq<char>) -> Option<Option<Seq<char>>> {
    if field.len() > 0 && field[0] == '+' {
        Some(Some(field.skip(1)))
    } else if field == seq!['-'] {
        Some(None)
    } else {
        None
    }
}

/// An optional text reads back from its field as it was.
pub proof fn lemma_optional_roundtrip(text: Option<Seq<char>>)
    ensures
        optional_of_field(optional_field(text)) == Some(text),
{
    if text is Some {
        assert(optional_field(text).skip(1) == text->0);
    }
}

/// Writes an optional text as a field.
pub fn encode_optional(text: &Option<String>) -> (r: String)
    ensures
        r@ == optional_field(crate::detect::text_view(*text)),
{
    let mut out: Vec<char> = Vec::new();
    match text {
        Some(t) => {
            out.push('+');
            crate::text::push_str(&mut out, t.as_str());
        },
        None => {
            out.push('-');
        },
    }
    from_chars(&out)
}

/// Reads an optional text from a field; the outer `None` where the field
/// stands for none.
pub fn decode_optional(field: &str) -> (r: Option<Option<String>>)
    ensures
        match r {
            Some(text) => optional_of_field(field@) == Some(crate::detect::text_view(text)),
            None => optional_of_field(field@) is None,
        },
{
    let chars = to_chars(field);
    if chars.len() > 0 && chars[0] == '+' {
        Some(Some(from_chars(&tail_from(&chars, 1))))
    } else if chars.len() == 1 && chars[0] == '-' {
        assert(chars@ == seq!['-']);
        Some(None)
    } else {
        None
    }
}

} // verus!
