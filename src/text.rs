//! Small string and byte helpers shared by the decoders.
use vstd::prelude::*;
use vstd::string::*;

verus! {

/// Relies on `String::push`: the character is appended at the end.
#[verifier::external_body]
pub(crate) fn push_char(s: &mut String, c: char)
    ensures
        final(s)@ == old(s)@.push(c),
{
    s.push(c)
}

/// Relies on `str::to_lowercase`: the result depends on the characters alone.
pub uninterp spec fn lower_of(s: Seq<char>) -> Seq<char>;

/// Relies on `str::to_lowercase`, which maps every character to its lowercase form.
#[verifier::external_body]
pub(crate) fn lowercase(s: &str) -> (r: String)
    ensures
        r@ == lower_of(s@),
{
    s.to_lowercase()
}

/// Relies on `String::from_utf8`: it succeeds exactly on well-formed UTF-8 and
/// then holds the decoded characters.
#[verifier::external_body]
pub(crate) fn utf8_text(b: Vec<u8>) -> (r: Option<String>)
    ensures
        r.is_some() == vstd::utf8::valid_utf8(b@),
        r.is_some() ==> r->0@ == vstd::utf8::decode_utf8(b@),
{
    match String::from_utf8(b) {
        Ok(s) => Some(s),
        Err(_) => None,
    }
}

/// Relies on `<[u8]>::to_vec`: a copy of the bytes.
#[verifier::external_body]
pub(crate) fn bytes_to_vec(b: &[u8]) -> (r: Vec<u8>)
    ensures
        r@ == b@,
{
    b.to_vec()
}

/// Character-wise equality of two strings.
pub fn str_equal(a: &str, b: &str) -> (r: bool)
    ensures
        r == (a@ == b@),
{
    let n = a.unicode_len();
    if n != b.unicode_len() {
        return false;
    }
    let mut i: usize = 0;
    while i < n
        invariant
            n == a@.len(),
            n == b@.len(),
            i <= n,
            forall|j: int| 0 <= j < i ==> a@[j] == b@[j],
        decreases n - i,
    {
        if a.get_char(i) != b.get_char(i) {
            return false;
        }
        i = i + 1;
    }
    assert(a@ =~= b@);
    true
}

pub open spec fn is_digit(c: char) -> bool {
    '0' <= c && c <= '9'
}

pub open spec fn digit_value(c: char) -> nat {
    (c as u32 - '0' as u32) as nat
}

/// The value of a run of decimal digits.
pub open spec fn decimal_value(s: Seq<char>) -> nat
    decreases s.len(),
{
    if s.len() == 0 { 0 } else { decimal_value(s.drop_last()) * 10 + digit_value(s.last()) }
}

pub open spec fn all_digits(s: Seq<char>) -> bool {
    forall|i: int| 0 <= i < s.len() ==> is_digit(#[trigger] s[i])
}

/// The integer written by an optional `+` or `-` sign followed by one or more
/// decimal digits; `None` for any other text.
pub open spec fn int_text_value(s: Seq<char>) -> Option<int> {
    let signed = s.len() > 0 && (s[0] == '-' || s[0] == '+');
    let body = if signed { s.drop_first() } else { s };
    if body.len() > 0 && all_digits(body) {
        if signed && s[0] == '-' {
            Some(-(decimal_value(body) as int))
        } else {
            Some(decimal_value(body) as int)
        }
    } else {
        None
    }
}

/// The integer written in `s` when it lies in `[min, max]`.
pub open spec fn int_text_in_range(s: Seq<char>, min: int, max: int) -> Option<int> {
    match int_text_value(s) {
        Some(v) => if min <= v && v <= max { Some(v) } else { None },
        None => None,
    }
}

proof fn lemma_decimal_prefix_mono(s: Seq<char>, i: int, j: int)
    requires
        0 <= i <= j <= s.len(),
    ensures
        decimal_value(s.take(i)) <= decimal_value(s.take(j)),
    decreases j - i,
{
    if i < j {
        lemma_decimal_prefix_mono(s, i, j - 1);
        assert(s.take(j).drop_last() =~= s.take(j - 1));
    }
}

/// Parses a signed decimal integer in `[min, max]`.
pub fn parse_int(s: &str, min: i64, max: i64) -> (r: Option<i64>)
    ensures
        r matches Some(v) ==> int_text_in_range(s@, min as int, max as int) == Some(v as int),
        r is None ==> int_text_in_range(s@, min as int, max as int) is None,
{
    let n = s.unicode_len();
    if n == 0 {
        return None;
    }
    let first = s.get_char(0);
    let signed = first == '-' || first == '+';
    let negative = first == '-';
    let start: usize = if signed { 1 } else { 0 };
    let ghost body = if signed { s@.drop_first() } else { s@ };
    if start == n {
        return None;
    }
    let bound: u128 = 9223372036854775808;
    let mut acc: u128 = 0;
    let mut i: usize = start;
    assert(body.take(0) =~= Seq::<char>::empty());
    assert(body =~= s@.subrange(start as int, n as int));
    while i < n
        invariant
            bound == 9223372036854775808,
            signed == (s@[0] == '-' || s@[0] == '+'),
            negative == (s@[0] == '-'),
            start == (if signed { 1usize } else { 0usize }),
            n == s@.len(),
            start <= i <= n,
            start < n,
            body == s@.subrange(start as int, n as int),
            forall|k: int| start <= k < i ==> is_digit(#[trigger] s@[k]),
            acc == decimal_value(body.take(i - start)),
            acc <= bound,
        decreases n - i,
    {
        let c = s.get_char(i);
        if !('0' <= c && c <= '9') {
            assert(!is_digit(body[i - start]));
            return None;
        }
        proof {
            assert(body.take(i - start + 1).drop_last() =~= body.take(i - start));
            assert(body.take(i - start + 1).last() == c);
        }
        acc = acc * 10 + ((c as u32 - '0' as u32) as u128);
        assert(acc == decimal_value(body.take(i - start + 1)));
        if acc > bound {
            proof {
                if all_digits(body) {
                    lemma_decimal_prefix_mono(body, i - start + 1, body.len() as int);
                    assert(body.take(body.len() as int) =~= body);
                    assert(decimal_value(body) > bound);
                    let sv = s@;
                    assert(body == (if sv.len() > 0 && (sv[0] == '-' || sv[0] == '+') { sv.drop_first() } else { sv }));
                    assert(int_text_value(s@) == (if negative { Some(-(decimal_value(body) as int)) } else { Some(decimal_value(body) as int) }));
                }
            }
            return None;
        }
        i = i + 1;
    }
    assert(body.take(n - start) =~= body);
    assert(all_digits(body)) by {
        assert forall|k: int| 0 <= k < body.len() implies is_digit(#[trigger] body[k]) by {
            assert(body[k] == s@[k + start]);
        }
    }
    let v: i128 = if negative { -(acc as i128) } else { acc as i128 };
    if v < min as i128 || v > max as i128 {
        None
    } else {
        Some(v as i64)
    }
}

/// `t`/`true` and `f`/`false`; `None` for any other text.
pub open spec fn bool_text_value(s: Seq<char>) -> Option<bool> {
    if s == seq!['t'] || s == seq!['t', 'r', 'u', 'e'] {
        Some(true)
    } else if s == seq!['f'] || s == seq!['f', 'a', 'l', 's', 'e'] {
        Some(false)
    } else {
        None
    }
}

/// Parses a boolean written as `t`, `f`, `true` or `false`.
pub fn parse_bool(s: &str) -> (r: Option<bool>)
    ensures
        r == bool_text_value(s@),
{
    let n = s.unicode_len();
    if n == 1 {
        let c = s.get_char(0);
        if c == 't' {
            assert(s@ =~= seq!['t']);
            return Some(true);
        } else if c == 'f' {
            assert(s@ =~= seq!['f']);
            return Some(false);
        }
        None
    } else if n == 4 {
        if s.get_char(0) == 't' && s.get_char(1) == 'r' && s.get_char(2) == 'u' && s.get_char(3) == 'e' {
            assert(s@ =~= seq!['t', 'r', 'u', 'e']);
            return Some(true);
        }
        None
    } else if n == 5 {
        if s.get_char(0) == 'f' && s.get_char(1) == 'a' && s.get_char(2) == 'l' && s.get_char(3) == 's'
            && s.get_char(4) == 'e' {
            assert(s@ =~= seq!['f', 'a', 'l', 's', 'e']);
            return Some(false);
        }
        None
    } else {
        None
    }
}




/// Appends the characters of `t` to `out`.
pub fn push_str(out: &mut String, t: &str)
    ensures
        final(out)@ == old(out)@ + t@,
{
    let n = t.unicode_len();
    let mut i: usize = 0;
    while i < n
        invariant
            n == t@.len(),
            i <= n,
            out@ == old(out)@ + t@.subrange(0, i as int),
        decreases n - i,
    {
        let c = t.get_char(i);
        push_char(out, c);
        assert(out@ =~= old(out)@ + t@.subrange(0, i as int + 1));
        i = i + 1;
    }
    assert(t@.subrange(0, n as int) =~= t@);
}

} // verus!
