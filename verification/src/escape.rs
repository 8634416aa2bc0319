//! JSON string escaping for substituted values, with its decoder and
//! the round-trip law: an escaped value is a well-formed JSON string
//! body that decodes back to the original text.

use vstd::prelude::*;

verus! {

/// The lowercase hexadecimal digit for `n`.
pub open spec fn hex_digit_char(n: int) -> char {
    if n == 0 {
        '0'
    } else if n == 1 {
        '1'
    } else if n == 2 {
        '2'
    } else if n == 3 {
        '3'
    } else if n == 4 {
        '4'
    } else if n == 5 {
        '5'
    } else if n == 6 {
        '6'
    } else if n == 7 {
        '7'
    } else if n == 8 {
        '8'
    } else if n == 9 {
        '9'
    } else if n == 10 {
        'a'
    } else if n == 11 {
        'b'
    } else if n == 12 {
        'c'
    } else if n == 13 {
        'd'
    } else if n == 14 {
        'e'
    } else {
        'f'
    }
}

/// The value of a hexadecimal digit, or -1 for any other character.
pub open spec fn hex_val(c: char) -> int {
    let u = c as u32;
    if 0x30 <= u && u <= 0x39 {
        u - 0x30
    } else if 0x61 <= u && u <= 0x66 {
        u - 0x61 + 10
    } else if 0x41 <= u && u <= 0x46 {
        u - 0x41 + 10
    } else {
        -1
    }
}

/// The JSON string-body encoding of one character: quote and backslash
/// are backslash-escaped, the common control characters take their
/// short escapes, every other control character takes `\u00XX`, and all
/// remaining characters stand for themselves.
pub open spec fn escape_char(c: char) -> Seq<char> {
    let u = c as u32;
    if c == '"' {
        seq!['\\', '"']
    } else if c == '\\' {
        seq!['\\', '\\']
    } else if u == 0x8 {
        seq!['\\', 'b']
    } else if u == 0x9 {
        seq!['\\', 't']
    } else if u == 0xA {
        seq!['\\', 'n']
    } else if u == 0xC {
        seq!['\\', 'f']
    } else if u == 0xD {
        seq!['\\', 'r']
    } else if u < 0x20 {
        seq!['\\', 'u', '0', '0', hex_digit_char(u as int / 16), hex_digit_char(u as int % 16)]
    } else {
        seq![c]
    }
}

/// The JSON string-body encoding of a text: each character escaped in
/// turn. This is the inner text of the JSON string encoding of `s`,
/// without the surrounding quotes.
pub open spec fn escape_seq(s: Seq<char>) -> Seq<char>
    decreases s.len(),
{
    if s.len() == 0 {
        Seq::<char>::empty()
    } else {
        escape_char(s[0]) + escape_seq(s.skip(1))
    }
}

/// Prepends `c` to a decoded tail, passing a failure through.
pub open spec fn opt_cons(c: char, r: Option<Seq<char>>) -> Option<Seq<char>> {
    match r {
        Some(t) => Some(seq![c] + t),
        None => None,
    }
}

/// Decodes a JSON string body: fails on a bare quote or control
/// character (either would break or be illegal inside a JSON string
/// literal), resolves the backslash escapes that `escape_char` can
/// produce (including `\u00XX`), and keeps every other character.
pub open spec fn unescape_seq(s: Seq<char>) -> Option<Seq<char>>
    decreases s.len(),
{
    if s.len() == 0 {
        Some(Seq::<char>::empty())
    } else if s[0] == '"' || (s[0] as u32) < 0x20 {
        None
    } else if s[0] == '\\' {
        if s.len() < 2 {
            None
        } else if s[1] == '"' {
            opt_cons('"', unescape_seq(s.skip(2)))
        } else if s[1] == '\\' {
            opt_cons('\\', unescape_seq(s.skip(2)))
        } else if s[1] == 'b' {
            opt_cons('\u{8}', unescape_seq(s.skip(2)))
        } else if s[1] == 't' {
            opt_cons('\u{9}', unescape_seq(s.skip(2)))
        } else if s[1] == 'n' {
            opt_cons('\u{A}', unescape_seq(s.skip(2)))
        } else if s[1] == 'f' {
            opt_cons('\u{C}', unescape_seq(s.skip(2)))
        } else if s[1] == 'r' {
            opt_cons('\u{D}', unescape_seq(s.skip(2)))
        } else if s[1] == 'u' {
            if s.len() >= 6 && s[2] == '0' && s[3] == '0' && hex_val(s[4]) >= 0 && hex_val(s[5])
                >= 0 {
                opt_cons(
                    ((16 * hex_val(s[4]) + hex_val(s[5])) as u32) as char,
                    unescape_seq(s.skip(6)),
                )
            } else {
                None
            }
        } else {
            None
        }
    } else {
        opt_cons(s[0], unescape_seq(s.skip(1)))
    }
}

/// The lowercase hexadecimal digit for `n`.
pub(crate) fn hex_digit_exec(n: u32) -> (c: char)
    requires
        n < 16,
    ensures
        c == hex_digit_char(n as int),
{
    if n == 0 {
        '0'
    } else if n == 1 {
        '1'
    } else if n == 2 {
        '2'
    } else if n == 3 {
        '3'
    } else if n == 4 {
        '4'
    } else if n == 5 {
        '5'
    } else if n == 6 {
        '6'
    } else if n == 7 {
        '7'
    } else if n == 8 {
        '8'
    } else if n == 9 {
        '9'
    } else if n == 10 {
        'a'
    } else if n == 11 {
        'b'
    } else if n == 12 {
        'c'
    } else if n == 13 {
        'd'
    } else if n == 14 {
        'e'
    } else {
        'f'
    }
}

/// Escapes a text character by character for use inside a JSON string
/// literal, the way the standard JSON encoder writes a string value
/// (minus the surrounding quotes).
pub fn escape_chars(s: &Vec<char>) -> (r: Vec<char>)
    ensures
        r@ == escape_seq(s@),
{
    let mut out: Vec<char> = Vec::new();
    let mut i: usize = 0;
    proof {
        assert(s@.skip(0) =~= s@);
    }
    while i < s.len()
        invariant
            i <= s.len(),
            escape_seq(s@) == out@ + escape_seq(s@.skip(i as int)),
        decreases s.len() - i,
    {
        let c = s[i];
        let u = c as u32;
        proof {
            assert(s@.skip(i as int)[0] == c);
            assert(s@.skip(i as int).skip(1) =~= s@.skip(i + 1));
        }
        let ghost prev = out@;
        if c == '"' {
            out.push('\\');
            out.push('"');
        } else if c == '\\' {
            out.push('\\');
            out.push('\\');
        } else if u == 0x8 {
            out.push('\\');
            out.push('b');
        } else if u == 0x9 {
            out.push('\\');
            out.push('t');
        } else if u == 0xA {
            out.push('\\');
            out.push('n');
        } else if u == 0xC {
            out.push('\\');
            out.push('f');
        } else if u == 0xD {
            out.push('\\');
            out.push('r');
        } else if u < 0x20 {
            out.push('\\');
            out.push('u');
            out.push('0');
            out.push('0');
            out.push(hex_digit_exec(u / 16));
            out.push(hex_digit_exec(u % 16));
        } else {
            out.push(c);
        }
        proof {
            assert(out@ =~= prev + escape_char(c));
            assert(out@ + escape_seq(s@.skip(i + 1)) =~= prev + escape_seq(s@.skip(i as int)));
        }
        i = i + 1;
    }
    proof {
        assert(escape_seq(s@) =~= out@);
    }
    out
}

/// Two characters with one code point are one character.
proof fn lemma_char_eq(a: char, b: char)
    requires
        a as u32 == b as u32,
    ensures
        a == b,
{
    vstd::utf8::char_u32_cast(a, a as u32);
    vstd::utf8::char_u32_cast(b, b as u32);
}

/// A hexadecimal digit decodes to the value it was written from.
proof fn lemma_hex_digit_val(n: int)
    requires
        0 <= n < 16,
    ensures
        hex_val(hex_digit_char(n)) == n,
{
}

/// The escaping round trip: for every text — in particular one holding
/// quotes, backslashes or control characters — the escaped form is a
/// well-formed JSON string body (the decoder accepts it: no bare quote
/// or control character can break out of the surrounding literal), and
/// decoding returns the original text unchanged.
pub proof fn lemma_escape_round_trip(s: Seq<char>)
    ensures
        unescape_seq(escape_seq(s)) == Some(s),
    decreases s.len(),
{
    if s.len() == 0 {
    } else {
        let c = s[0];
        let u = c as u32;
        let e = escape_char(c);
        let rest = escape_seq(s.skip(1));
        lemma_escape_round_trip(s.skip(1));
        let whole = e + rest;
        assert(escape_seq(s) == whole);
        assert(whole.skip(e.len() as int) =~= rest);
        assert(seq![c] + s.skip(1) =~= s);
        if c == '"' || c == '\\' || u == 0x8 || u == 0x9 || u == 0xA || u == 0xC || u == 0xD {
            if u == 0x8 {
                lemma_char_eq(c, '\u{8}');
            } else if u == 0x9 {
                lemma_char_eq(c, '\u{9}');
            } else if u == 0xA {
                lemma_char_eq(c, '\u{A}');
            } else if u == 0xC {
                lemma_char_eq(c, '\u{C}');
            } else if u == 0xD {
                lemma_char_eq(c, '\u{D}');
            }
            assert(whole[0] == '\\' && whole[1] == e[1]);
            assert(whole.skip(2) =~= rest);
            assert(unescape_seq(whole) == opt_cons(c, unescape_seq(rest)));
        } else if u < 0x20 {
            assert(whole[0] == '\\' && whole[1] == 'u' && whole[2] == '0' && whole[3] == '0');
            assert(whole[4] == hex_digit_char(u as int / 16) && whole[5] == hex_digit_char(
                u as int % 16,
            ));
            lemma_hex_digit_val(u as int / 16);
            lemma_hex_digit_val(u as int % 16);
            assert(16 * (u as int / 16) + (u as int % 16) == u as int);
            assert(whole.skip(6) =~= rest);
            vstd::utf8::char_u32_cast(c, u);
            assert(unescape_seq(whole) == opt_cons(c, unescape_seq(rest)));
        } else {
            assert(whole[0] == c);
            assert(whole.skip(1) =~= rest);
            assert(unescape_seq(whole) == opt_cons(c, unescape_seq(rest)));
        }
    }
}

} // verus!
