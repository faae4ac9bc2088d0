//! Reading a JSON string literal back: the decoding that JSON gives the
//! escapes, and the proof that the escaping of `json` decodes to the text
//! it escaped.

use vstd::prelude::*;
use crate::json::{escape_char, escape_chars, hex_digit, json_quote};

verus! {

/// The value of a hexadecimal digit of either case.
pub open spec fn hex_value(c: char) -> Option<int> {
    let u = c as u32;
    if 48 <= u <= 57 {
        Some(u - 48)
    } else if 97 <= u <= 102 {
        Some(u - 87)
    } else if 65 <= u <= 70 {
        Some(u - 55)
    } else {
        None
    }
}

/// The number that four hexadecimal digits spell.
pub open spec fn hex4(d: Seq<char>) -> Option<int> {
    if d.len() == 4 && hex_value(d[0]) is Some && hex_value(d[1]) is Some && hex_value(d[2]) is Some
        && hex_value(d[3]) is Some {
        Some(
            4096 * hex_value(d[0])->0 + 256 * hex_value(d[1])->0 + 16 * hex_value(d[2])->0
                + hex_value(d[3])->0,
        )
    } else {
        None
    }
}

/// The character that the escape at the start of `r` (which begins with a
/// backslash) stands for, and how many characters the escape takes; `None`
/// when JSON does not accept the escape.
pub open spec fn escape_step(r: Seq<char>) -> Option<(char, nat)> {
    if r.len() < 2 {
        None
    } else {
        let e = r[1];
        if e == '"' {
            Some(('"', 2))
        } else if e == '\\' {
            Some(('\\', 2))
        } else if e == '/' {
            Some(('/', 2))
        } else if e == 'b' {
            Some(('\u{8}', 2))
        } else if e == 'f' {
            Some(('\u{c}', 2))
        } else if e == 'n' {
            Some(('\n', 2))
        } else if e == 'r' {
            Some(('\r', 2))
        } else if e == 't' {
            Some(('\t', 2))
        } else if e == 'u' && r.len() >= 6 && hex4(r.subrange(2, 6)) is Some {
            let v = hex4(r.subrange(2, 6))->0;
            if 0xd800 <= v <= 0xdbff {
                if r.len() >= 12 && r[6] == '\\' && r[7] == 'u' && hex4(r.subrange(8, 12)) is Some
                    && 0xdc00 <= hex4(r.subrange(8, 12))->0 <= 0xdfff {
                    let w = hex4(r.subrange(8, 12))->0;
                    Some((((0x10000 + (v - 0xd800) * 0x400 + (w - 0xdc00)) as u32) as char, 12))
                } else {
                    None
                }
            } else if 0xdc00 <= v <= 0xdfff {
                None
            } else {
                Some(((v as u32) as char, 6))
            }
        } else {
            None
        }
    }
}

/// Decodes the inside of a JSON string literal that starts at the front of
/// `r`, up to and including its closing quote: the text it holds and the
/// number of characters read; `None` when `r` does not start with the
/// inside of a well-formed literal.
pub open spec fn decode_string_body(r: Seq<char>) -> Option<(Seq<char>, nat)>
    decreases r.len(),
{
    if r.len() == 0 {
        None
    } else if r[0] == '"' {
        Some((Seq::empty(), 1))
    } else if r[0] == '\\' {
        match escape_step(r) {
            Some((c, n)) => if 0 < n <= r.len() {
                match decode_string_body(r.skip(n as int)) {
                    Some((s, m)) => Some((seq![c] + s, n + m)),
                    None => None,
                }
            } else {
                None
            },
            None => None,
        }
    } else if (r[0] as u32) < 0x20 {
        None
    } else {
        match decode_string_body(r.drop_first()) {
            Some((s, m)) => Some((seq![r[0]] + s, 1 + m)),
            None => None,
        }
    }
}

/// Decodes the JSON string literal at the front of `t`: the text it holds
/// and the length of the literal.
pub open spec fn json_string_at(t: Seq<char>) -> Option<(Seq<char>, nat)> {
    if t.len() > 0 && t[0] == '"' {
        match decode_string_body(t.drop_first()) {
            Some((s, m)) => Some((s, m + 1)),
            None => None,
        }
    } else {
        None
    }
}

proof fn lemma_hex_digit_value(d: int)
    requires
        0 <= d < 16,
    ensures
        hex_value(hex_digit(d)) == Some(d),
{
}

/// `d` with `c` read in front of it, taking `n` characters.
pub open spec fn read_before(c: char, n: nat, d: Option<(Seq<char>, nat)>) -> Option<(Seq<char>, nat)> {
    match d {
        Some((s, m)) => Some((seq![c] + s, n + m)),
        None => None,
    }
}

proof fn lemma_decode_plain(c: char, x: Seq<char>)
    requires
        c != '"',
        c != '\\',
        (c as u32) >= 0x20,
    ensures
        decode_string_body(seq![c] + x) == read_before(c, 1, decode_string_body(x)),
{
    let r = seq![c] + x;
    assert(r[0] == c);
    assert(r.drop_first() =~= x);
}

proof fn lemma_decode_named(c: char, e: char, x: Seq<char>)
    requires
        escape_step(seq!['\\', e] + x) == Some((c, 2nat)),
    ensures
        decode_string_body(seq!['\\', e] + x) == read_before(c, 2, decode_string_body(x)),
{
    let r = seq!['\\', e] + x;
    assert(r[0] == '\\');
    assert(r.skip(2) =~= x);
}

proof fn lemma_hex4_control(c: char)
    requires
        (c as u32) < 0x20,
    ensures
        hex4(seq!['0', '0', hex_digit((c as u32) as int / 16), hex_digit((c as u32) as int % 16)])
            == Some((c as u32) as int),
{
    let u = (c as u32) as int;
    lemma_hex_digit_value(u / 16);
    lemma_hex_digit_value(u % 16);
    lemma_hex_digit_value(0);
    assert(hex_digit(0) == '0');
}

proof fn lemma_decode_control(c: char, x: Seq<char>)
    requires
        (c as u32) < 0x20,
        c != '\u{8}',
        c != '\t',
        c != '\n',
        c != '\u{c}',
        c != '\r',
    ensures
        decode_string_body(escape_char(c) + x) == read_before(c, 6, decode_string_body(x)),
{
    broadcast use vstd::utf8::char_u32_cast;

    let u = c as u32;
    let h = seq!['0', '0', hex_digit(u as int / 16), hex_digit(u as int % 16)];
    lemma_hex4_control(c);
    let r = escape_char(c) + x;
    assert(escape_char(c) =~= seq!['\\', 'u'] + h);
    assert(r[0] == '\\');
    assert(r[1] == 'u');
    assert(r.subrange(2, 6) =~= h);
    assert((u as u32) as char == c);
    assert(escape_step(r) == Some((c, 6nat)));
    assert(r.skip(6) =~= x);
}

proof fn lemma_decode_named_char(c: char, e: char, x: Seq<char>)
    requires
        escape_char(c) == seq!['\\', e],
        escape_step(seq!['\\', e]) == Some((c, 2nat)),
    ensures
        decode_string_body(escape_char(c) + x) == read_before(c, 2, decode_string_body(x)),
{
    let r = seq!['\\', e] + x;
    assert(r[1] == e);
    assert(escape_step(r) == escape_step(seq!['\\', e]));
    lemma_decode_named(c, e, x);
}

#[verifier::spinoff_prover]
proof fn lemma_decode_quote_or_backslash(c: char, x: Seq<char>)
    requires
        c == '"' || c == '\\',
    ensures
        decode_string_body(escape_char(c) + x) == read_before(
            c,
            escape_char(c).len(),
            decode_string_body(x),
        ),
{
    if c == '"' {
        assert(escape_char(c) =~= seq!['\\', '"']);
        lemma_decode_named_char(c, '"', x);
    } else {
        assert(escape_char(c) =~= seq!['\\', '\\']);
        lemma_decode_named_char(c, '\\', x);
    }
}

#[verifier::spinoff_prover]
proof fn lemma_decode_named_control(c: char, x: Seq<char>)
    requires
        c == '\u{8}' || c == '\t' || c == '\n' || c == '\u{c}' || c == '\r',
    ensures
        decode_string_body(escape_char(c) + x) == read_before(
            c,
            escape_char(c).len(),
            decode_string_body(x),
        ),
{
    if c == '\u{8}' {
        assert(escape_char(c) =~= seq!['\\', 'b']);
        lemma_decode_named_char(c, 'b', x);
    } else if c == '\t' {
        assert(escape_char(c) =~= seq!['\\', 't']);
        lemma_decode_named_char(c, 't', x);
    } else if c == '\n' {
        assert(escape_char(c) =~= seq!['\\', 'n']);
        lemma_decode_named_char(c, 'n', x);
    } else if c == '\u{c}' {
        assert(escape_char(c) =~= seq!['\\', 'f']);
        lemma_decode_named_char(c, 'f', x);
    } else {
        assert(escape_char(c) =~= seq!['\\', 'r']);
        lemma_decode_named_char(c, 'r', x);
    }
}

/// One escaped character in front of `x` reads as that character.
proof fn lemma_decode_unit(c: char, x: Seq<char>)
    ensures
        decode_string_body(escape_char(c) + x) == read_before(
            c,
            escape_char(c).len(),
            decode_string_body(x),
        ),
{
    if c == '"' || c == '\\' {
        lemma_decode_quote_or_backslash(c, x);
    } else if c == '\u{8}' || c == '\t' || c == '\n' || c == '\u{c}' || c == '\r' {
        lemma_decode_named_control(c, x);
    } else if (c as u32) < 0x20 {
        lemma_decode_control(c, x);
        assert(escape_char(c).len() == 6);
    } else {
        assert(escape_char(c) =~= seq![c]);
        lemma_decode_plain(c, x);
    }
}

/// The escaping of `s`, followed by the closing quote, decodes to `s` and
/// ends at that quote, whatever follows it.
pub proof fn lemma_decode_escaped(s: Seq<char>, rest: Seq<char>)
    ensures
        decode_string_body(escape_chars(s) + seq!['"'] + rest) == Some(
            (s, escape_chars(s).len() + 1),
        ),
    decreases s.len(),
{
    let r = escape_chars(s) + seq!['"'] + rest;
    if s.len() == 0 {
        assert(escape_chars(s) =~= Seq::<char>::empty());
        assert(r[0] == '"');
    } else {
        let c = s[0];
        let tail = s.drop_first();
        let x = escape_chars(tail) + seq!['"'] + rest;
        assert(r =~= escape_char(c) + x);
        lemma_decode_escaped(tail, rest);
        lemma_decode_unit(c, x);
        assert(s =~= seq![c] + tail);
    }
}

/// The JSON string literal that holds `s`, whatever follows it, reads back
/// as `s` and ends where the literal ends.
pub proof fn law_json_string_round_trip(s: Seq<char>, rest: Seq<char>)
    ensures
        json_string_at(json_quote(s) + rest) == Some((s, json_quote(s).len())),
{
    let t = json_quote(s) + rest;
    assert(t.drop_first() =~= escape_chars(s) + seq!['"'] + rest);
    lemma_decode_escaped(s, rest);
}

} // verus!
