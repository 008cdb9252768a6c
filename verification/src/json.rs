//! JSON rendering of the mapping.
//!
//! The listing response serializes the mapping as a JSON array of
//! `{"short": ..., "long": ...}` objects, in load order. The escaping rules
//! are the usual JSON ones: `"` and `\` get a backslash, the common control
//! characters get their short escapes, and the remaining control characters
//! are written as `\u00XX` with lowercase hex digits.

use crate::shorthand::{Shorthand, ShorthandModel, entries_model};
use vstd::prelude::*;

verus! {

/// Relies on String::push: appends the given character to the end of the
/// string, as its documentation states.
pub assume_specification[ String::push ](s: &mut String, c: char)
    ensures
        final(s)@ == old(s)@.push(c),
;

/// The lowercase hex digit for a value below 16.
pub open spec fn hex_char(n: int) -> char {
    if n == 0 {
        '0'
    } else if n == 1 {
        '1'
    } else if n == 2 {
        '2'
    } else if n == 3 {
        '3'
    } else if n == 4 {
        '4'
    } else if n == 5 {
        '5'
    } else if n == 6 {
        '6'
    } else if n == 7 {
        '7'
    } else if n == 8 {
        '8'
    } else if n == 9 {
        '9'
    } else if n == 10 {
        'a'
    } else if n == 11 {
        'b'
    } else if n == 12 {
        'c'
    } else if n == 13 {
        'd'
    } else if n == 14 {
        'e'
    } else {
        'f'
    }
}

/// How one character appears inside a JSON string literal.
pub open spec fn escape_char(c: char) -> Seq<char> {
    if c == '"' {
        seq!['\\', '"']
    } else if c == '\\' {
        seq!['\\', '\\']
    } else if c == '\u{8}' {
        seq!['\\', 'b']
    } else if c == '\t' {
        seq!['\\', 't']
    } else if c == '\n' {
        seq!['\\', 'n']
    } else if c == '\u{c}' {
        seq!['\\', 'f']
    } else if c == '\r' {
        seq!['\\', 'r']
    } else if (c as u32) < 32 {
        seq!['\\', 'u', '0', '0', hex_char((c as u32) as int / 16), hex_char((c as u32) as int % 16)]
    } else {
        seq![c]
    }
}

/// How a whole string appears inside a JSON string literal.
pub open spec fn escape_string(s: Seq<char>) -> Seq<char>
    decreases s.len(),
{
    if s.len() == 0 {
        Seq::<char>::empty()
    } else {
        escape_char(s[0]) + escape_string(s.drop_first())
    }
}

/// A JSON string literal: the escaped content between double quotes.
pub open spec fn quoted(s: Seq<char>) -> Seq<char> {
    seq!['"'] + escape_string(s) + seq!['"']
}

/// One mapping entry as a JSON object with the fields `short` and `long`.
pub open spec fn entry_json(e: ShorthandModel) -> Seq<char> {
    seq!['{', '"', 's', 'h', 'o', 'r', 't', '"', ':'] + quoted(e.short) + seq![
        ',',
        '"',
        'l',
        'o',
        'n',
        'g',
        '"',
        ':',
    ] + quoted(e.long) + seq!['}']
}

/// The entries as a comma-separated JSON sequence, in order.
pub open spec fn entries_json(es: Seq<ShorthandModel>) -> Seq<char>
    decreases es.len(),
{
    if es.len() == 0 {
        Seq::<char>::empty()
    } else if es.len() == 1 {
        entry_json(es[0])
    } else {
        entry_json(es[0]) + seq![','] + entries_json(es.drop_first())
    }
}

/// The whole mapping as a JSON array, in load order.
pub open spec fn listing_json(es: Seq<ShorthandModel>) -> Seq<char> {
    seq!['['] + entries_json(es) + seq![']']
}

/// Escaping a string one character longer appends that character's escape.
pub proof fn lemma_escape_string_push(s: Seq<char>, c: char)
    ensures
        escape_string(s.push(c)) == escape_string(s) + escape_char(c),
    decreases s.len(),
{
    if s.len() == 0 {
        assert(s.push(c)[0] == c);
        assert(s.push(c).drop_first() =~= Seq::<char>::empty());
        assert(escape_char(c) + escape_string(Seq::<char>::empty()) =~= escape_string(s)
            + escape_char(c));
    } else {
        assert(s.push(c)[0] == s[0]);
        assert(s.push(c).drop_first() =~= s.drop_first().push(c));
        lemma_escape_string_push(s.drop_first(), c);
        assert(escape_char(s[0]) + (escape_string(s.drop_first()) + escape_char(c)) =~= (escape_char(
            s[0],
        ) + escape_string(s.drop_first())) + escape_char(c));
    }
}

/// Serializing one entry more appends a comma (after a first entry) and that
/// entry's object.
pub proof fn lemma_entries_json_push(es: Seq<ShorthandModel>, e: ShorthandModel)
    ensures
        es.len() == 0 ==> entries_json(es.push(e)) == entry_json(e),
        es.len() > 0 ==> entries_json(es.push(e)) == entries_json(es) + seq![','] + entry_json(e),
    decreases es.len(),
{
    if es.len() == 0 {
        assert(es.push(e)[0] == e);
    } else if es.len() == 1 {
        assert(es.push(e)[0] == es[0]);
        assert(es.push(e).drop_first() =~= seq![e]);
        assert(entries_json(seq![e]) == entry_json(seq![e][0]));
        assert(seq![e][0] == e);
        assert(entries_json(es) == entry_json(es[0]));
    } else {
        assert(es.push(e)[0] == es[0]);
        assert(es.push(e).drop_first() =~= es.drop_first().push(e));
        lemma_entries_json_push(es.drop_first(), e);
        assert(entry_json(es[0]) + seq![','] + (entries_json(es.drop_first()) + seq![',']
            + entry_json(e)) =~= (entry_json(es[0]) + seq![','] + entries_json(es.drop_first()))
            + seq![','] + entry_json(e));
    }
}

/// The lowercase hex digit for a value below 16.
fn hex_digit(n: u32) -> (c: char)
    requires
        n < 16,
    ensures
        c == hex_char(n as int),
{
    if n == 0 {
        '0'
    } else if n == 1 {
        '1'
    } else if n == 2 {
        '2'
    } else if n == 3 {
        '3'
    } else if n == 4 {
        '4'
    } else if n == 5 {
        '5'
    } else if n == 6 {
        '6'
    } else if n == 7 {
        '7'
    } else if n == 8 {
        '8'
    } else if n == 9 {
        '9'
    } else if n == 10 {
        'a'
    } else if n == 11 {
        'b'
    } else if n == 12 {
        'c'
    } else if n == 13 {
        'd'
    } else if n == 14 {
        'e'
    } else {
        'f'
    }
}

/// Appends the JSON string literal for `s` (quotes and escaping included).
fn push_quoted(out: &mut String, s: &String)
    ensures
        final(out)@ == old(out)@ + quoted(s@),
{
    out.push('"');
    let n: usize = s.as_str().unicode_len();
    let mut i: usize = 0;
    while i < n
        invariant
            i <= n,
            n == s@.len(),
            out@ == old(out)@ + seq!['"'] + escape_string(s@.subrange(0, i as int)),
        decreases n - i,
    {
        let c = s.as_str().get_char(i);
        if c == '"' {
            out.push('\\');
            out.push('"');
        } else if c == '\\' {
            out.push('\\');
            out.push('\\');
        } else if c == '\u{8}' {
            out.push('\\');
            out.push('b');
        } else if c == '\t' {
            out.push('\\');
            out.push('t');
        } else if c == '\n' {
            out.push('\\');
            out.push('n');
        } else if c == '\u{c}' {
            out.push('\\');
            out.push('f');
        } else if c == '\r' {
            out.push('\\');
            out.push('r');
        } else if (c as u32) < 32 {
            out.push('\\');
            out.push('u');
            out.push('0');
            out.push('0');
            out.push(hex_digit((c as u32) / 16));
            out.push(hex_digit((c as u32) % 16));
        } else {
            out.push(c);
        }
        proof {
            lemma_escape_string_push(s@.subrange(0, i as int), s@[i as int]);
            assert(s@.subrange(0, i as int + 1) =~= s@.subrange(0, i as int).push(s@[i as int]));
            assert(out@ =~= old(out)@ + seq!['"'] + escape_string(s@.subrange(0, i as int + 1)));
        }
        i = i + 1;
    }
    out.push('"');
    proof {
        assert(s@.subrange(0, n as int) =~= s@);
        assert(out@ =~= old(out)@ + quoted(s@));
    }
}

/// Appends one entry's JSON object.
fn push_entry(out: &mut String, e: &Shorthand)
    ensures
        final(out)@ == old(out)@ + entry_json(e@),
{
    out.push('{');
    out.push('"');
    out.push('s');
    out.push('h');
    out.push('o');
    out.push('r');
    out.push('t');
    out.push('"');
    out.push(':');
    push_quoted(out, &e.short);
    out.push(',');
    out.push('"');
    out.push('l');
    out.push('o');
    out.push('n');
    out.push('g');
    out.push('"');
    out.push(':');
    push_quoted(out, &e.long);
    out.push('}');
    proof {
        assert(out@ =~= old(out)@ + entry_json(e@));
    }
}

/// Renders the whole mapping as a JSON array of `{"short", "long"}` objects,
/// in load order.
pub fn listing_body(entries: &Vec<Shorthand>) -> (r: String)
    ensures
        r@ == listing_json(entries_model(entries@)),
{
    let ghost em = entries_model(entries@);
    let mut out = String::new();
    out.push('[');
    let mut i: usize = 0;
    while i < entries.len()
        invariant
            i <= entries.len(),
            em == entries_model(entries@),
            em.len() == entries@.len(),
            out@ == seq!['['] + entries_json(em.subrange(0, i as int)),
        decreases entries.len() - i,
    {
        if i > 0 {
            out.push(',');
        }
        push_entry(&mut out, &entries[i]);
        proof {
            assert(em[i as int] == entries@[i as int]@);
            lemma_entries_json_push(em.subrange(0, i as int), em[i as int]);
            assert(em.subrange(0, i as int).push(em[i as int]) =~= em.subrange(0, i as int + 1));
            assert(out@ =~= seq!['['] + entries_json(em.subrange(0, i as int + 1)));
        }
        i = i + 1;
    }
    out.push(']');
    proof {
        assert(em.subrange(0, em.len() as int) =~= em);
        assert(out@ =~= listing_json(em));
    }
    out
}

} // verus!
