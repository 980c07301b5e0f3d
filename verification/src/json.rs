use vstd::prelude::*;
use vstd::string::StringExecFns;
use crate::text::{chars_of, push_char, hex_digit, hex_digits, decimal_text, spec_decimal};

verus! {

/// The JSON escape of one character: quote, backslash, newline, carriage
/// return and tab get their two-character escapes, other control characters
/// the `\u00XX` form in lower-case hexadecimal, and every other character
/// stands for itself.
pub open spec fn json_escape_char(c: char) -> Seq<char> {
    if c == '"' {
        seq!['\\', '"']
    } else if c == '\\' {
        seq!['\\', '\\']
    } else if c == '\n' {
        seq!['\\', 'n']
    } else if c == '\r' {
        seq!['\\', 'r']
    } else if c == '\t' {
        seq!['\\', 't']
    } else if (c as u32) < 0x20 {
        seq!['\\', 'u', '0', '0', hex_digits()[(c as u32) as int / 16], hex_digits()[(c as u32) as int % 16]]
    } else {
        seq![c]
    }
}

/// The JSON escape of a character sequence, character by character.
pub open spec fn json_escape(s: Seq<char>) -> Seq<char>
    decreases s.len(),
{
    if s.len() == 0 {
        Seq::empty()
    } else {
        json_escape(s.drop_last()) + json_escape_char(s.last())
    }
}

/// A JSON string literal holding `s`.
pub open spec fn json_quoted(s: Seq<char>) -> Seq<char> {
    seq!['"'] + json_escape(s) + seq!['"']
}

/// Writes `s` as a JSON string literal.
pub fn json_str(s: &str) -> (r: String)
    ensures
        r@ == json_quoted(s@),
{
    let cs = chars_of(s);
    let mut out = String::new();
    push_char(&mut out, '"');
    let mut i: usize = 0;
    while i < cs.len()
        invariant
            cs@ == s@,
            0 <= i <= cs@.len(),
            out@ == seq!['"'] + json_escape(cs@.take(i as int)),
        decreases cs@.len() - i,
    {
        let c = cs[i];
        let ghost before = out@;
        if c == '"' {
            push_char(&mut out, '\\');
            push_char(&mut out, '"');
        } else if c == '\\' {
            push_char(&mut out, '\\');
            push_char(&mut out, '\\');
        } else if c == '\n' {
            push_char(&mut out, '\\');
            push_char(&mut out, 'n');
        } else if c == '\r' {
            push_char(&mut out, '\\');
            push_char(&mut out, 'r');
        } else if c == '\t' {
            push_char(&mut out, '\\');
            push_char(&mut out, 't');
        } else if (c as u32) < 0x20 {
            let v: u32 = c as u32;
            push_char(&mut out, '\\');
            push_char(&mut out, 'u');
            push_char(&mut out, '0');
            push_char(&mut out, '0');
            push_char(&mut out, hex_digit(v / 16));
            push_char(&mut out, hex_digit(v % 16));
        } else {
            push_char(&mut out, c);
        }
        assert(out@ =~= before + json_escape_char(c));
        assert(cs@.take(i + 1).drop_last() =~= cs@.take(i as int));
        i = i + 1;
    }
    assert(cs@.take(cs@.len() as int) =~= cs@);
    push_char(&mut out, '"');
    out
}

/// Law: a character that `json_escape_char` writes is never a control
/// character, and a quote it writes comes right after a backslash.
pub proof fn lemma_escape_char_printable(c: char)
    ensures
        forall|i: int| 0 <= i < json_escape_char(c).len() ==> (#[trigger] json_escape_char(c)[i] as u32) >= 0x20,
        forall|i: int| 0 <= i < json_escape_char(c).len() && #[trigger] json_escape_char(c)[i] == '"'
            ==> i > 0 && json_escape_char(c)[i - 1] == '\\',
{
    let h = hex_digits();
    assert(h[0] as u32 >= 0x20 && h[1] as u32 >= 0x20 && h[2] as u32 >= 0x20 && h[3] as u32 >= 0x20);
    assert(h[4] as u32 >= 0x20 && h[5] as u32 >= 0x20 && h[6] as u32 >= 0x20 && h[7] as u32 >= 0x20);
    assert(h[8] as u32 >= 0x20 && h[9] as u32 >= 0x20 && h[10] as u32 >= 0x20 && h[11] as u32 >= 0x20);
    assert(h[12] as u32 >= 0x20 && h[13] as u32 >= 0x20 && h[14] as u32 >= 0x20 && h[15] as u32 >= 0x20);
    assert(forall|k: int| 0 <= k < 16 ==> (#[trigger] h[k]) as u32 >= 0x20 && h[k] != '"');
}

/// Law: the body of a JSON string literal written by `json_str` holds no
/// control character and no quote that is not escaped, so the literal is a
/// single well-formed JSON string, on one line.
pub proof fn lemma_escape_printable(s: Seq<char>)
    ensures
        forall|i: int| 0 <= i < json_escape(s).len() ==> (#[trigger] json_escape(s)[i] as u32) >= 0x20,
        forall|i: int| 0 <= i < json_escape(s).len() && #[trigger] json_escape(s)[i] == '"'
            ==> i > 0 && json_escape(s)[i - 1] == '\\',
    decreases s.len(),
{
    if s.len() > 0 {
        lemma_escape_printable(s.drop_last());
        lemma_escape_char_printable(s.last());
        let a = json_escape(s.drop_last());
        let b = json_escape_char(s.last());
        assert(json_escape(s) == a + b);
        assert forall|i: int| 0 <= i < json_escape(s).len() implies (#[trigger] json_escape(s)[i] as u32) >= 0x20 by {
            if i < a.len() {
                assert(json_escape(s)[i] == a[i]);
            } else {
                assert(json_escape(s)[i] == b[i - a.len()]);
            }
        }
        assert forall|i: int| 0 <= i < json_escape(s).len() && #[trigger] json_escape(s)[i] == '"'
            implies i > 0 && json_escape(s)[i - 1] == '\\' by {
            if i < a.len() {
                assert(json_escape(s)[i] == a[i]);
                assert(json_escape(s)[i - 1] == a[i - 1]);
            } else {
                assert(json_escape(s)[i] == b[i - a.len()]);
                assert(json_escape(s)[i - 1] == b[i - 1 - a.len()]);
            }
        }
    }
}


/// No character of `s` is a control character.
pub open spec fn printable(s: Seq<char>) -> bool {
    forall|i: int| 0 <= i < s.len() ==> (#[trigger] s[i] as u32) >= 0x20
}

/// Printable sequences stay printable when joined.
pub proof fn lemma_printable_concat(a: Seq<char>, b: Seq<char>)
    requires
        printable(a),
        printable(b),
    ensures
        printable(a + b),
{
    assert forall|i: int| 0 <= i < (a + b).len() implies ((#[trigger] (a + b)[i]) as u32) >= 0x20 by {
        if i < a.len() {
            assert((a + b)[i] == a[i]);
        } else {
            assert((a + b)[i] == b[i - a.len()]);
        }
    }
}

/// Law: a JSON string literal written by `json_str` is printable: it holds
/// no line break or other control character, whatever the input holds.
pub proof fn lemma_quoted_printable(s: Seq<char>)
    ensures
        printable(json_quoted(s)),
{
    lemma_escape_printable(s);
    let q = seq!['"'];
    assert(printable(q));
    assert(printable(json_escape(s)));
    lemma_printable_concat(q, json_escape(s));
    lemma_printable_concat(q + json_escape(s), q);
}


/// The value of a hexadecimal digit character, either case.
pub open spec fn hex_value(c: char) -> Option<int> {
    if '0' <= c <= '9' {
        Some(c as int - '0' as int)
    } else if 'a' <= c <= 'f' {
        Some(c as int - 'a' as int + 10)
    } else if 'A' <= c <= 'F' {
        Some(c as int - 'A' as int + 10)
    } else {
        None
    }
}

/// The character that a `\uXXXX` escape names, from its four digits; `None`
/// where a digit is not hexadecimal or the code is a surrogate, which only a
/// pair of escapes can spell.
pub open spec fn json_unicode_escape(a: char, b: char, c: char, d: char) -> Option<char> {
    match (hex_value(a), hex_value(b), hex_value(c), hex_value(d)) {
        (Some(w), Some(x), Some(y), Some(z)) => {
            let v = ((w * 16 + x) * 16 + y) * 16 + z;
            if 0xD800 <= v <= 0xDFFF {
                None
            } else {
                Some(v as char)
            }
        },
        _ => None,
    }
}

/// Decodes the body of a JSON string literal (what stands between its
/// quotes) as JSON defines it: an unescaped quote or control character is
/// an error, `\` starts one of the escapes `\" \\ \/ \b \f \n \r \t \uXXXX`,
/// and every other character stands for itself. A surrogate pair written as
/// two `\u` escapes is not decoded (`None`).
pub open spec fn json_decode_body(t: Seq<char>) -> Option<Seq<char>>
    decreases t.len(),
{
    if t.len() == 0 {
        Some(Seq::empty())
    } else if t[0] == '\\' {
        if t.len() < 2 {
            None
        } else {
            let e = t[1];
            let simple: Option<char> = if e == '"' {
                Some('"')
            } else if e == '\\' {
                Some('\\')
            } else if e == '/' {
                Some('/')
            } else if e == 'b' {
                Some('\u{8}')
            } else if e == 'f' {
                Some('\u{c}')
            } else if e == 'n' {
                Some('\n')
            } else if e == 'r' {
                Some('\r')
            } else if e == 't' {
                Some('\t')
            } else {
                None
            };
            if simple is Some {
                match json_decode_body(t.skip(2)) {
                    Some(rest) => Some(seq![simple->0] + rest),
                    None => None,
                }
            } else if e == 'u' && t.len() >= 6 {
                match (json_unicode_escape(t[2], t[3], t[4], t[5]), json_decode_body(t.skip(6))) {
                    (Some(ch), Some(rest)) => Some(seq![ch] + rest),
                    _ => None,
                }
            } else {
                None
            }
        }
    } else if t[0] == '"' || (t[0] as u32) < 0x20 {
        None
    } else {
        match json_decode_body(t.skip(1)) {
            Some(rest) => Some(seq![t[0]] + rest),
            None => None,
        }
    }
}

/// Decodes a JSON string literal: a quote, a body, a quote.
pub open spec fn json_decode_literal(t: Seq<char>) -> Option<Seq<char>> {
    if t.len() >= 2 && t[0] == '"' && t[t.len() - 1] == '"' {
        json_decode_body(t.subrange(1, t.len() - 1))
    } else {
        None
    }
}

/// The escape of a sequence read from its front.
proof fn lemma_escape_front(s: Seq<char>)
    requires
        s.len() > 0,
    ensures
        json_escape(s) == json_escape_char(s[0]) + json_escape(s.drop_first()),
    decreases s.len(),
{
    if s.len() == 1 {
        assert(s.drop_last() =~= Seq::<char>::empty());
        assert(s.drop_first() =~= Seq::<char>::empty());
        assert(json_escape(s.drop_last()) =~= Seq::<char>::empty());
        assert(json_escape(s.drop_first()) =~= Seq::<char>::empty());
        assert(s.last() == s[0]);
        assert(json_escape(s) =~= json_escape_char(s[0]));
    } else {
        let p = s.drop_last();
        lemma_escape_front(p);
        assert(p.drop_first() =~= s.drop_first().drop_last());
        assert(s.drop_first().last() == s.last());
        assert(p[0] == s[0]);
        assert(json_escape(s) =~= json_escape_char(s[0]) + json_escape(s.drop_first()));
    }
}

/// A lower-case hexadecimal digit reads back as its value.
proof fn lemma_hex_value(k: int)
    requires
        0 <= k < 16,
    ensures
        hex_value(hex_digits()[k]) == Some(k),
{
    let h = hex_digits();
    if k == 0 { assert(h[0] == '0'); }
    else if k == 1 { assert(h[1] == '1'); }
    else if k == 2 { assert(h[2] == '2'); }
    else if k == 3 { assert(h[3] == '3'); }
    else if k == 4 { assert(h[4] == '4'); }
    else if k == 5 { assert(h[5] == '5'); }
    else if k == 6 { assert(h[6] == '6'); }
    else if k == 7 { assert(h[7] == '7'); }
    else if k == 8 { assert(h[8] == '8'); }
    else if k == 9 { assert(h[9] == '9'); }
    else if k == 10 { assert(h[10] == 'a'); }
    else if k == 11 { assert(h[11] == 'b'); }
    else if k == 12 { assert(h[12] == 'c'); }
    else if k == 13 { assert(h[13] == 'd'); }
    else if k == 14 { assert(h[14] == 'e'); }
    else { assert(h[15] == 'f'); }
}

/// Decoding the escape of one character, followed by anything, gives that
/// character followed by the decoding of the rest.
proof fn lemma_decode_escape_char(c: char, rest: Seq<char>)
    ensures
        json_decode_body(json_escape_char(c) + rest) == match json_decode_body(rest) {
            Some(r) => Some(seq![c] + r),
            None => None::<Seq<char>>,
        },
{
    let t = json_escape_char(c) + rest;
    let n = json_escape_char(c).len();
    assert(t.skip(n as int) =~= rest);
    if (c as u32) < 0x20 && c != '\n' && c != '\r' && c != '\t' {
        let v = c as u32;
        lemma_hex_value(v as int / 16);
        lemma_hex_value(v as int % 16);
        lemma_hex_value(0);
        assert(t[2] == '0' && t[3] == '0');
        assert(t[4] == hex_digits()[v as int / 16]);
        assert(t[5] == hex_digits()[v as int % 16]);
        assert(((0 * 16 + 0) * 16 + v as int / 16) * 16 + v as int % 16 == v as int);
        assert((v as int) as char == c);
    }
}

/// Law: a JSON string literal written by `json_str` decodes, as JSON, back
/// to exactly the text that was written.
pub proof fn lemma_json_round_trip(s: Seq<char>)
    ensures
        json_decode_body(json_escape(s)) == Some(s),
        json_decode_literal(json_quoted(s)) == Some(s),
    decreases s.len(),
{
    if s.len() == 0 {
        assert(json_escape(s) =~= Seq::<char>::empty());
    } else {
        lemma_escape_front(s);
        lemma_json_round_trip(s.drop_first());
        lemma_decode_escape_char(s[0], json_escape(s.drop_first()));
        assert(seq![s[0]] + s.drop_first() =~= s);
    }
    let q = json_quoted(s);
    assert(q.subrange(1, q.len() - 1) =~= json_escape(s));
}

} // verus!
