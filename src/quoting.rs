//! Quoting of SQL identifiers and string literals.
use vstd::prelude::*;
use vstd::string::*;
use crate::text::push_char;

verus! {

/// Each character of `s` that equals `a` or `b` is written twice.
pub open spec fn doubled(s: Seq<char>, a: char, b: char) -> Seq<char>
    decreases s.len(),
{
    if s.len() == 0 {
        Seq::empty()
    } else {
        let c = s.last();
        let rest = doubled(s.drop_last(), a, b);
        if c == a || c == b {
            rest.push(c).push(c)
        } else {
            rest.push(c)
        }
    }
}

/// `"ident"` with each inner double quote doubled.
pub open spec fn quoted_identifier(s: Seq<char>) -> Seq<char> {
    seq!['"'] + doubled(s, '"', '"') + seq!['"']
}

/// `'lit'` with quotes and backslashes doubled, prefixed by `E` when a
/// backslash occurs.
pub open spec fn quoted_literal(s: Seq<char>) -> Seq<char> {
    let body = seq!['\''] + doubled(s, '\'', '\\') + seq!['\''];
    if s.contains('\\') {
        seq!['E'] + body
    } else {
        body
    }
}

fn push_doubled(out: &mut String, s: &str, a: char, b: char)
    ensures
        final(out)@ == old(out)@ + doubled(s@, a, b),
{
    let n = s.unicode_len();
    let mut i: usize = 0;
    while i < n
        invariant
            n == s@.len(),
            i <= n,
            out@ == old(out)@ + doubled(s@.subrange(0, i as int), a, b),
        decreases n - i,
    {
        let c = s.get_char(i);
        proof {
            let p = s@.subrange(0, i as int + 1);
            assert(p.drop_last() =~= s@.subrange(0, i as int));
            assert(p.last() == c);
        }
        if c == a || c == b {
            push_char(out, c);
        }
        push_char(out, c);
        i = i + 1;
    }
    assert(s@.subrange(0, n as int) =~= s@);
}

/// Quotes an SQL identifier.
pub fn quote_identifier(identifier: &str) -> (r: String)
    ensures
        r@ == quoted_identifier(identifier@),
{
    let mut out = String::new();
    push_char(&mut out, '"');
    push_doubled(&mut out, identifier, '"', '"');
    push_char(&mut out, '"');
    assert(out@ =~= quoted_identifier(identifier@));
    out
}

fn has_backslash(s: &str) -> (r: bool)
    ensures
        r == s@.contains('\\'),
{
    let n = s.unicode_len();
    let mut i: usize = 0;
    while i < n
        invariant
            n == s@.len(),
            i <= n,
            forall|j: int| 0 <= j < i ==> s@[j] != '\\',
        decreases n - i,
    {
        if s.get_char(i) == '\\' {
            return true;
        }
        i = i + 1;
    }
    false
}

/// Quotes an SQL string literal.
pub fn quote_literal(literal: &str) -> (r: String)
    ensures
        r@ == quoted_literal(literal@),
{
    let mut out = String::new();
    let escaped = has_backslash(literal);
    if escaped {
        push_char(&mut out, 'E');
    }
    push_char(&mut out, '\'');
    push_doubled(&mut out, literal, '\'', '\\');
    push_char(&mut out, '\'');
    assert(out@ =~= quoted_literal(literal@));
    out
}

} // verus!
