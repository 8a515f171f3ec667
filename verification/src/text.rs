//! Text produced and read by the handlers: decimal numbers, `i32` parsing
//! and JSON string literals.

use vstd::prelude::*;

verus! {

/// Appends `c` to `s`.
///
/// Trusted: calls `String::push`, which the standard library documents as
/// appending the given `char` to the end of the string.
#[verifier::external_body]
pub(crate) fn push_char(s: &mut String, c: char)
    ensures
        final(s)@ == old(s)@.push(c),
{
    s.push(c);
}

/// The character of the decimal digit `d` (`d < 10`).
pub open spec fn digit_char(d: nat) -> char {
    (48 + d) as char
}

/// The decimal notation of `n`, most significant digit first, without
/// leading zeros (`0` is written `"0"`).
pub open spec fn decimal(n: nat) -> Seq<char>
    decreases n,
{
    if n < 10 {
        seq![digit_char(n)]
    } else {
        decimal(n / 10).push(digit_char(n % 10))
    }
}

/// The text of the integer `n`: a `-` before the decimal notation of its
/// magnitude when it is negative.
pub open spec fn int_text(n: int) -> Seq<char> {
    if n < 0 {
        seq!['-'] + decimal((-n) as nat)
    } else {
        decimal(n as nat)
    }
}

fn digit(d: u64) -> (c: char)
    requires
        d < 10,
    ensures
        c == digit_char(d as nat),
{
    ((d as u8) + 48u8) as char
}

fn push_decimal(out: &mut String, n: u64)
    ensures
        final(out)@ == old(out)@ + decimal(n as nat),
    decreases n,
{
    if n >= 10 {
        push_decimal(out, n / 10);
    }
    push_char(out, digit(n % 10));
    assert(final(out)@ =~= old(out)@ + decimal(n as nat));
}


/// The text of `n` as `format!("{}", n)` writes it.
pub fn int_to_text(n: i64) -> (s: String)
    ensures
        s@ == int_text(n as int),
{
    let mut s = String::new();
    if n < 0 {
        push_char(&mut s, '-');
        let magnitude: u64 = (0i128 - (n as i128)) as u64;
        push_decimal(&mut s, magnitude);
    } else {
        push_decimal(&mut s, n as u64);
    }
    s
}

/// True when `b` is the ASCII code of a decimal digit.
pub open spec fn is_digit_byte(b: u8) -> bool {
    48 <= b <= 57
}

/// True when every byte of `b` is a decimal digit.
pub open spec fn all_digits(b: Seq<u8>) -> bool {
    forall|i: int| 0 <= i < b.len() ==> is_digit_byte(#[trigger] b[i])
}

/// The value of a run of decimal digits, most significant first.
pub open spec fn digits_value(b: Seq<u8>) -> int
    decreases b.len(),
{
    if b.len() == 0 {
        0
    } else {
        digits_value(b.drop_last()) * 10 + (b.last() - 48)
    }
}

/// What `str::parse::<i32>` gives for a string with the UTF-8 bytes `b`: an
/// optional `+` or `-`, then one or more decimal digits and nothing else, whose
/// value fits in an `i32`.
pub open spec fn parse_i32_spec(b: Seq<u8>) -> Option<i32> {
    let signed = b.len() > 0 && (b[0] == 45 || b[0] == 43);
    let negative = b.len() > 0 && b[0] == 45;
    let digits = if signed { b.subrange(1, b.len() as int) } else { b };
    let magnitude = digits_value(digits);
    let value = if negative { -magnitude } else { magnitude };
    if digits.len() > 0 && all_digits(digits) && i32::MIN <= value <= i32::MAX {
        Some(value as i32)
    } else {
        None
    }
}

proof fn lemma_digits_value_nonneg(b: Seq<u8>)
    requires
        all_digits(b),
    ensures
        digits_value(b) >= 0,
    decreases b.len(),
{
    if b.len() > 0 {
        assert(all_digits(b.drop_last()));
        lemma_digits_value_nonneg(b.drop_last());
        assert(is_digit_byte(b[b.len() - 1]));
    }
}

/// A run of digits is worth at least any of its prefixes.
proof fn lemma_digits_value_prefix(b: Seq<u8>, i: int)
    requires
        all_digits(b),
        0 <= i <= b.len(),
    ensures
        digits_value(b.subrange(0, i)) <= digits_value(b),
    decreases b.len(),
{
    if i < b.len() {
        let front = b.drop_last();
        assert(all_digits(front));
        lemma_digits_value_prefix(front, i);
        assert(front.subrange(0, i) =~= b.subrange(0, i));
        lemma_digits_value_nonneg(front);
        assert(is_digit_byte(b[b.len() - 1]));
    } else {
        assert(b.subrange(0, i) =~= b);
    }
}

/// Parses `s` as `str::parse::<i32>` does, with `None` for every input that
/// it rejects.
pub fn parse_i32(s: &str) -> (r: Option<i32>)
    ensures
        r == parse_i32_spec(vstd::utf8::encode_utf8(s@)),
{
    let bytes = s.as_bytes();
    let n = bytes.len();
    let ghost b = bytes@;
    if n == 0 {
        return None;
    }
    let negative = bytes[0] == 45u8;
    let start: usize = if bytes[0] == 45u8 || bytes[0] == 43u8 { 1 } else { 0 };
    let ghost digits = if start == 1 { b.subrange(1, b.len() as int) } else { b };
    assert(digits =~= b.subrange(start as int, n as int));
    if start == n {
        return None;
    }
    let mut acc: i64 = 0;
    let mut i: usize = start;
    while i < n
        invariant
            b == bytes@,
            b == vstd::utf8::encode_utf8(s@),
            n == b.len(),
            n > 0,
            negative == (b[0] == 45),
            start == (if b[0] == 45 || b[0] == 43 { 1usize } else { 0usize }),
            start <= i <= n,
            digits =~= b.subrange(start as int, n as int),
            acc == digits_value(b.subrange(start as int, i as int)),
            all_digits(b.subrange(start as int, i as int)),
            0 <= acc <= 2147483648,
        decreases n - i,
    {
        let d = bytes[i];
        if d < 48u8 || d > 57u8 {
            assert(digits[i - start] == d);
            return None;
        }
        let ghost before = b.subrange(start as int, i as int);
        let ghost after = b.subrange(start as int, i + 1);
        assert(after.drop_last() =~= before);
        assert(after.last() == d);
        assert(all_digits(after));
        acc = acc * 10 + (d - 48u8) as i64;
        i = i + 1;
        if acc > 2147483648 {
            proof {
                assert(acc == digits_value(after));
                if start == 0 {
                    assert(digits =~= b);
                }
                if all_digits(digits) {
                    assert(digits.subrange(0, i - start) =~= after);
                    lemma_digits_value_prefix(digits, i - start);
                }
            }
            return None;
        }
    }
    assert(b.subrange(start as int, n as int) =~= digits);
    if negative {
        Some((0 - acc) as i32)
    } else if acc > 2147483647 {
        None
    } else {
        Some(acc as i32)
    }
}


proof fn lemma_decimal_digits(n: nat)
    ensures
        decimal(n).len() > 0,
        vstd::utf8::is_ascii_chars(decimal(n)),
        forall|i: int|
            0 <= i < decimal(n).len() ==> is_digit_byte(#[trigger] decimal(n)[i] as u8),
    decreases n,
{
    if n >= 10 {
        lemma_decimal_digits(n / 10);
        let d = n % 10;
        assert(((48 + d) as char) as u8 == 48 + d);
    } else {
        assert(((48 + n) as char) as u8 == 48 + n);
    }
}

/// The UTF-8 bytes of the decimal notation of `n` are its digits, worth `n`.
pub proof fn lemma_decimal_bytes(n: nat)
    ensures
        all_digits(vstd::utf8::encode_utf8(decimal(n))),
        vstd::utf8::encode_utf8(decimal(n)).len() == decimal(n).len() > 0,
        digits_value(vstd::utf8::encode_utf8(decimal(n))) == n,
    decreases n,
{
    broadcast use vstd::utf8::is_ascii_chars_encode_utf8;

    lemma_decimal_digits(n);
    let e = vstd::utf8::encode_utf8(decimal(n));
    assert(all_digits(e)) by {
        assert forall|i: int| 0 <= i < e.len() implies is_digit_byte(#[trigger] e[i]) by {
            assert(decimal(n)[i] as u8 == e[i]);
        }
    }
    if n >= 10 {
        lemma_decimal_bytes(n / 10);
        lemma_decimal_digits(n / 10);
        let e1 = vstd::utf8::encode_utf8(decimal(n / 10));
        assert(e.drop_last() =~= e1) by {
            assert forall|i: int| 0 <= i < e1.len() implies e.drop_last()[i] == e1[i] by {
                assert(decimal(n)[i] == decimal(n / 10)[i]);
                assert(decimal(n)[i] as u8 == e[i]);
                assert(decimal(n / 10)[i] as u8 == e1[i]);
            }
        }
        let d = n % 10;
        assert(e.last() == decimal(n).last() as u8);
        assert(((48 + d) as char) as u8 == 48 + d);
        assert(e.last() == 48 + d);
        assert(digits_value(e) == digits_value(e1) * 10 + d);
        assert((n / 10) * 10 + d == n);
    } else {
        assert(e.drop_last() =~= Seq::<u8>::empty());
        assert(digits_value(Seq::<u8>::empty()) == 0);
        assert(e[0] == decimal(n)[0] as u8);
        assert(((48 + n) as char) as u8 == 48 + n);
    }
}

/// Writing an `i32` as text and parsing that text back gives the same
/// number: the numbers the handlers write are the numbers they read.
pub proof fn lemma_int_text_parses_back(n: i32)
    ensures
        parse_i32_spec(vstd::utf8::encode_utf8(int_text(n as int))) == Some(n),
{
    broadcast use vstd::utf8::is_ascii_chars_encode_utf8;

    let t = int_text(n as int);
    let e = vstd::utf8::encode_utf8(t);
    if n < 0 {
        let m = (-n) as nat;
        lemma_decimal_bytes(m);
        lemma_decimal_digits(m);
        let d = decimal(m);
        let ed = vstd::utf8::encode_utf8(d);
        assert(vstd::utf8::is_ascii_chars(t)) by {
            assert forall|i: int| 0 <= i < t.len() implies '\0' <= #[trigger] t[i] <= '\u{7f}' by {
                if i > 0 {
                    assert(t[i] == d[i - 1]);
                }
            }
        }
        assert(e.subrange(1, e.len() as int) =~= ed) by {
            assert forall|i: int| 0 <= i < ed.len() implies e.subrange(1, e.len() as int)[i] == ed[i] by {
                assert(t[i + 1] == d[i]);
                assert(t[i + 1] as u8 == e[i + 1]);
                assert(d[i] as u8 == ed[i]);
            }
        }
        assert(t[0] as u8 == e[0]);
        assert(('-' as u8) == 45u8);
    } else {
        lemma_decimal_bytes(n as nat);
        lemma_decimal_digits(n as nat);
        assert(t[0] as u8 == e[0]);
        assert(is_digit_byte(t[0] as u8));
        assert(e.subrange(0, e.len() as int) =~= e);
    }
}


/// The JSON string literal for the text `s`: what `serde_json` writes for a
/// string value (quotes, escapes and all).
pub uninterp spec fn json_quoted(s: Seq<char>) -> Seq<char>;

/// The JSON string literal for `s`.
///
/// Trusted: calls `serde_json::to_string` on the string, whose result is
/// named `json_quoted`. Serialising a `str` into memory cannot fail in
/// `serde_json`, so the fallback to an empty string is never taken.
#[verifier::external_body]
pub(crate) fn quote_json(s: &str) -> (q: String)
    ensures
        q@ == json_quoted(s@),
{
    serde_json::to_string(s).unwrap_or_default()
}

/// The texts `parts` joined by commas.
pub open spec fn comma_joined(parts: Seq<Seq<char>>) -> Seq<char>
    decreases parts.len(),
{
    if parts.len() == 0 {
        Seq::empty()
    } else if parts.len() == 1 {
        parts[0]
    } else {
        comma_joined(parts.drop_last()) + seq![','] + parts.last()
    }
}

/// The compact JSON array of the strings `items`, as `serde_json` writes a
/// list of strings: `["a","b"]`.
pub open spec fn json_string_array(items: Seq<Seq<char>>) -> Seq<char> {
    seq!['['] + comma_joined(items.map_values(|item: Seq<char>| json_quoted(item))) + seq![']']
}

/// The compact JSON array of the strings `items`.
pub fn json_string_array_text(items: &Vec<String>) -> (out: String)
    ensures
        out@ == json_string_array(items@.map_values(|item: String| item@)),
{
    let ghost views = items@.map_values(|item: String| item@);
    let ghost quoted = views.map_values(|item: Seq<char>| json_quoted(item));
    let mut out = String::new();
    push_char(&mut out, '[');
    let n = items.len();
    for i in 0..n
        invariant
            n == items.len(),
            views == items@.map_values(|item: String| item@),
            quoted == views.map_values(|item: Seq<char>| json_quoted(item)),
            out@ == seq!['['] + comma_joined(quoted.take(i as int)),
    {
        let q = quote_json(items[i].as_str());
        if i > 0 {
            push_char(&mut out, ',');
        }
        out.append(q.as_str());
        assert(quoted.take(i + 1).drop_last() =~= quoted.take(i as int));
        assert(quoted[i as int] == q@);
    }
    push_char(&mut out, ']');
    assert(quoted.take(n as int) =~= quoted);
    out
}


/// The text of a natural number is a nonempty run of digits worth exactly
/// that number: a number written as text is the number read back.
pub proof fn lemma_int_text_of_natural(n: int)
    requires
        n >= 0,
    ensures
        int_text(n).len() > 0,
        all_digits(vstd::utf8::encode_utf8(int_text(n))),
        digits_value(vstd::utf8::encode_utf8(int_text(n))) == n,
{
    lemma_decimal_bytes(n as nat);
}

/// The text `t` reads as the integer `n`: digits worth `n`, after a `-`
/// when `n` is negative.
pub open spec fn reads_as_number(t: Seq<char>, n: int) -> bool {
    if n >= 0 {
        &&& t.len() > 0
        &&& all_digits(vstd::utf8::encode_utf8(t))
        &&& digits_value(vstd::utf8::encode_utf8(t)) == n
    } else {
        &&& t.len() > 1
        &&& t[0] == '-'
        &&& all_digits(vstd::utf8::encode_utf8(t.drop_first()))
        &&& digits_value(vstd::utf8::encode_utf8(t.drop_first())) == -n
    }
}

/// The text of every integer reads back as that integer.
pub proof fn lemma_int_text_reads_as(n: int)
    ensures
        reads_as_number(int_text(n), n),
{
    if n >= 0 {
        lemma_decimal_bytes(n as nat);
    } else {
        let m = (-n) as nat;
        lemma_decimal_bytes(m);
        assert((seq!['-'] + decimal(m)).drop_first() =~= decimal(m));
    }
}

/// A sign before the digits is read as `str::parse::<i32>` reads it: `+`
/// changes nothing, `-` negates, and a sign alone or twice is rejected.
pub proof fn lemma_parse_i32_signs(d: Seq<u8>)
    requires
        d.len() > 0,
        all_digits(d),
    ensures
        parse_i32_spec(seq![43u8] + d) == parse_i32_spec(d),
        digits_value(d) <= i32::MAX ==> parse_i32_spec(d) == Some(digits_value(d) as i32),
        digits_value(d) <= 2147483648 ==> parse_i32_spec(seq![45u8] + d) == Some((-digits_value(d)) as i32),
        parse_i32_spec(seq![43u8]) is None,
        parse_i32_spec(seq![45u8]) is None,
        parse_i32_spec(seq![45u8, 45u8] + d) is None,
{
    lemma_digits_value_nonneg(d);
    assert((seq![43u8] + d).subrange(1, d.len() as int + 1) =~= d);
    assert((seq![45u8] + d).subrange(1, d.len() as int + 1) =~= d);
    assert(is_digit_byte(d[0]));
    assert(d[0] != 45 && d[0] != 43);
    let dd = seq![45u8, 45u8] + d;
    assert(dd.subrange(1, dd.len() as int)[0] == 45u8);
}

/// A JSON array of no names is `[]`, and of one name is that name quoted
/// between brackets.
pub proof fn lemma_json_array_short(x: Seq<char>)
    ensures
        json_string_array(Seq::empty()) == seq!['[', ']'],
        json_string_array(seq![x]) == seq!['['] + json_quoted(x) + seq![']'],
{
    let f = |item: Seq<char>| json_quoted(item);
    assert(Seq::<Seq<char>>::empty().map_values(f) =~= Seq::<Seq<char>>::empty());
    assert(seq![x].map_values(f) =~= seq![json_quoted(x)]);
    assert(seq!['['] + Seq::<char>::empty() + seq![']'] =~= seq!['[', ']']);
}

/// Adding a name to a nonempty list adds a comma and the quoted name just
/// before the closing bracket: the names are separated by exactly one comma
/// each.
pub proof fn lemma_json_array_push(items: Seq<Seq<char>>, x: Seq<char>)
    requires
        items.len() >= 1,
    ensures
        json_string_array(items.push(x)) == json_string_array(items).drop_last() + seq![','] + json_quoted(
            x,
        ) + seq![']'],
{
    let f = |item: Seq<char>| json_quoted(item);
    let parts = items.map_values(f);
    let parts2 = items.push(x).map_values(f);
    assert(parts2 =~= parts.push(json_quoted(x)));
    assert(parts.push(json_quoted(x)).drop_last() =~= parts);
    let body = comma_joined(parts);
    assert(comma_joined(parts2) == body + seq![','] + json_quoted(x));
    assert((seq!['['] + body + seq![']']).drop_last() =~= seq!['['] + body);
    assert(seq!['['] + (body + seq![','] + json_quoted(x)) + seq![']'] =~= seq!['['] + body + seq![
        ',',
    ] + json_quoted(x) + seq![']']);
}

} // verus!
