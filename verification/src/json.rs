//! JSON text of the values that the client sends: string literals escaped
//! as `serde_json` escapes them, integers in decimal, `null`, booleans.

use vstd::prelude::*;

verus! {

/// The lower-case hexadecimal digit of `d` (`d < 16`).
pub open spec fn hex_digit(d: int) -> char {
    if d < 10 {
        ((d + 48) as u32) as char
    } else {
        ((d + 87) as u32) as char
    }
}

/// How one character stands inside a JSON string literal.
pub open spec fn escape_char(c: char) -> Seq<char> {
    if c == '"' {
        seq!['\\', '"']
    } else if c == '\\' {
        seq!['\\', '\\']
    } else if c == '\u{8}' {
        seq!['\\', 'b']
    } else if c == '\t' {
        seq!['\\', 't']
    } else if c == '\n' {
        seq!['\\', 'n']
    } else if c == '\u{c}' {
        seq!['\\', 'f']
    } else if c == '\r' {
        seq!['\\', 'r']
    } else if (c as u32) < 0x20 {
        seq!['\\', 'u', '0', '0', hex_digit((c as u32) as int / 16), hex_digit((c as u32) as int % 16)]
    } else {
        seq![c]
    }
}

/// The characters of `s`, each escaped.
pub open spec fn escape_chars(s: Seq<char>) -> Seq<char>
    decreases s.len(),
{
    if s.len() == 0 {
        Seq::empty()
    } else {
        escape_char(s[0]) + escape_chars(s.drop_first())
    }
}

/// The JSON string literal that holds `s`.
pub open spec fn json_quote(s: Seq<char>) -> Seq<char> {
    seq!['"'] + escape_chars(s) + seq!['"']
}

/// The decimal digit `d` (`d < 10`).
pub open spec fn decimal_digit(d: nat) -> char {
    ((d + 48) as u32) as char
}

/// The decimal digits of `n`, without leading zeros.
pub open spec fn decimal_digits(n: nat) -> Seq<char>
    decreases n,
{
    if n < 10 {
        seq![decimal_digit(n)]
    } else {
        decimal_digits(n / 10).push(decimal_digit(n % 10))
    }
}

/// The decimal text of `n`, with a leading `-` when it is negative.
pub open spec fn decimal(n: int) -> Seq<char> {
    if n < 0 {
        seq!['-'] + decimal_digits((-n) as nat)
    } else {
        decimal_digits(n as nat)
    }
}

/// The JSON text `null`.
pub open spec fn json_null() -> Seq<char> {
    seq!['n', 'u', 'l', 'l']
}

/// The JSON text of a boolean.
pub open spec fn json_bool(b: bool) -> Seq<char> {
    if b {
        seq!['t', 'r', 'u', 'e']
    } else {
        seq!['f', 'a', 'l', 's', 'e']
    }
}

#[verifier::external_type_specification]
#[verifier::external_body]
pub struct ExSerdeJsonError(serde_json::Error);

/// Calls `serde_json::to_string` on a string slice. Its source writes the
/// slice between two `"` into a `Vec<u8>`, escaping `"`, `\`, and the bytes
/// below 0x20 (`\b \t \n \f \r` by name, the others as `\u00` and two
/// lower-case hex digits) and copying every other byte; writing into a vector
/// cannot fail, and a `str` raises no serialisation error. So the result is
/// `Ok` and holds `json_quote` of the slice.
#[verifier::external_body]
fn serde_quote(s: &str) -> (r: Result<String, serde_json::Error>)
    ensures
        r is Ok,
        r matches Ok(t) ==> t@ == json_quote(s@),
{
    serde_json::to_string(s)
}

/// Appends the JSON string literal that holds `s`.
pub fn push_quoted(out: &mut String, s: &str)
    ensures
        final(out)@ == old(out)@ + json_quote(s@),
{
    match serde_quote(s) {
        Ok(t) => out.append(t.as_str()),
        Err(_) => {},
    }
}

/// Appends a string slice whose text is known to the caller.
pub fn push_str(out: &mut String, s: &str)
    ensures
        final(out)@ == old(out)@ + s@,
{
    out.append(s);
}

/// The text of one decimal digit.
fn digit_text(d: u64) -> (s: &'static str)
    requires
        d < 10,
    ensures
        s@ == seq![decimal_digit(d as nat)],
{
    proof {
        reveal_strlit("0");
        reveal_strlit("1");
        reveal_strlit("2");
        reveal_strlit("3");
        reveal_strlit("4");
        reveal_strlit("5");
        reveal_strlit("6");
        reveal_strlit("7");
        reveal_strlit("8");
        reveal_strlit("9");
    }
    match d {
        0 => "0",
        1 => "1",
        2 => "2",
        3 => "3",
        4 => "4",
        5 => "5",
        6 => "6",
        7 => "7",
        8 => "8",
        _ => "9",
    }
}

/// Appends the decimal digits of `n`.
pub fn push_digits(out: &mut String, n: u64)
    ensures
        final(out)@ == old(out)@ + decimal_digits(n as nat),
    decreases n,
{
    if n < 10 {
        out.append(digit_text(n));
    } else {
        push_digits(out, n / 10);
        out.append(digit_text(n % 10));
        proof {
            assert(decimal_digits(n as nat) == decimal_digits((n / 10) as nat).push(
                decimal_digit((n % 10) as nat),
            ));
        }
    }
}

/// Appends the decimal text of `n`.
pub fn push_decimal(out: &mut String, n: i64)
    ensures
        final(out)@ == old(out)@ + decimal(n as int),
{
    if n < 0 {
        proof {
            reveal_strlit("-");
        }
        out.append("-");
        let m: u64 = if n == i64::MIN {
            9223372036854775808u64
        } else {
            (-n) as u64
        };
        push_digits(out, m);
    } else {
        push_digits(out, n as u64);
    }
}

/// Appends `null`.
pub fn push_null(out: &mut String)
    ensures
        final(out)@ == old(out)@ + json_null(),
{
    proof {
        reveal_strlit("null");
    }
    out.append("null");
}

/// Appends `true` or `false`.
pub fn push_bool(out: &mut String, b: bool)
    ensures
        final(out)@ == old(out)@ + json_bool(b),
{
    proof {
        reveal_strlit("true");
        reveal_strlit("false");
    }
    if b {
        out.append("true");
    } else {
        out.append("false");
    }
}

} // verus!

verus! {

/// A value with a JSON text.
pub trait ToJson {
    /// The JSON text of the value.
    spec fn json(&self) -> Seq<char>;

    /// Appends the JSON text of the value.
    fn push_json(&self, out: &mut String)
        ensures
            final(out)@ == old(out)@ + self.json(),
    ;
}

/// The JSON text of a value, as a new string.
pub fn to_json<T: ToJson>(v: &T) -> (r: String)
    ensures
        r@ == v.json(),
{
    let mut out = String::new();
    v.push_json(&mut out);
    assert(out@ =~= v.json());
    out
}

/// The texts of `items` separated by commas.
pub open spec fn join_commas(items: Seq<Seq<char>>) -> Seq<char>
    decreases items.len(),
{
    if items.len() == 0 {
        Seq::empty()
    } else if items.len() == 1 {
        items[0]
    } else {
        join_commas(items.drop_last()) + seq![','] + items.last()
    }
}

/// A JSON array of the given element texts.
pub open spec fn json_array(items: Seq<Seq<char>>) -> Seq<char> {
    seq!['['] + join_commas(items) + seq![']']
}

impl ToJson for bool {
    open spec fn json(&self) -> Seq<char> {
        json_bool(*self)
    }

    fn push_json(&self, out: &mut String) {
        push_bool(out, *self);
    }
}

impl ToJson for i8 {
    open spec fn json(&self) -> Seq<char> {
        decimal(*self as int)
    }

    fn push_json(&self, out: &mut String) {
        push_decimal(out, *self as i64);
    }
}

impl ToJson for i16 {
    open spec fn json(&self) -> Seq<char> {
        decimal(*self as int)
    }

    fn push_json(&self, out: &mut String) {
        push_decimal(out, *self as i64);
    }
}

impl ToJson for i32 {
    open spec fn json(&self) -> Seq<char> {
        decimal(*self as int)
    }

    fn push_json(&self, out: &mut String) {
        push_decimal(out, *self as i64);
    }
}

impl ToJson for String {
    open spec fn json(&self) -> Seq<char> {
        json_quote(self@)
    }

    fn push_json(&self, out: &mut String) {
        push_quoted(out, self.as_str());
    }
}

impl<T: ToJson> ToJson for Option<T> {
    open spec fn json(&self) -> Seq<char> {
        match self {
            Some(v) => v.json(),
            None => json_null(),
        }
    }

    fn push_json(&self, out: &mut String) {
        match self {
            Some(v) => v.push_json(out),
            None => push_null(out),
        }
    }
}

/// The JSON texts of the elements of `s`.
pub open spec fn element_texts<T: ToJson>(s: Seq<T>) -> Seq<Seq<char>> {
    s.map_values(|x: T| x.json())
}

impl<T: ToJson> ToJson for Vec<T> {
    open spec fn json(&self) -> Seq<char> {
        json_array(element_texts(self@))
    }

    fn push_json(&self, out: &mut String) {
        proof {
            reveal_strlit("[");
            reveal_strlit("]");
            reveal_strlit(",");
        }
        let ghost start = out@;
        let ghost texts = element_texts(self@);
        out.append("[");
        assert("["@ =~= seq!['[']);
        let mut i: usize = 0;
        while i < self.len()
            invariant
                i <= self@.len(),
                texts == element_texts(self@),
                out@ == start + seq!['['] + join_commas(texts.take(i as int)),
            decreases self.len() - i,
        {
            let ghost before = out@;
            if i > 0 {
                out.append(",");
                proof {
                    reveal_strlit(",");
                }
                assert(","@ =~= seq![',']);
            }
            let ghost mid = out@;
            assert(i > 0 ==> mid =~= before + seq![',']);
            assert(i == 0 ==> mid == before);
            self[i].push_json(out);
            proof {
                assert(texts.take(i + 1).drop_last() =~= texts.take(i as int));
                assert(texts.take(i + 1).last() == self@[i as int].json());
                if i == 0 {
                    assert(texts.take(1) =~= seq![texts[0]]);
                    assert(join_commas(texts.take(1)) == texts[0]);
                    assert(out@ =~= start + seq!['['] + join_commas(texts.take(1)));
                } else {
                    assert(join_commas(texts.take(i + 1)) == join_commas(texts.take(i as int))
                        + seq![','] + texts[i as int]);
                    assert(out@ =~= start + seq!['['] + join_commas(texts.take(i + 1)));
                }
            }
            i = i + 1;
        }
        out.append("]");
        assert("]"@ =~= seq![']']);
        assert(texts.take(i as int) =~= texts);
    }
}

/// A JSON value kept as the text it arrived in.
pub struct RawJson {
    pub text: String,
}

impl ToJson for RawJson {
    open spec fn json(&self) -> Seq<char> {
        self.text@
    }

    fn push_json(&self, out: &mut String) {
        out.append(self.text.as_str());
    }
}

} // verus!
