//! JSON string literals: how a text is quoted, and how a literal is read back.
use vstd::prelude::*;

verus! {

/// The lowercase hexadecimal digit of `d`, where `d < 16`.
pub open spec fn hex_digit(d: nat) -> char {
    if d < 10 {
        (48 + d) as char
    } else {
        (87 + d) as char
    }
}

/// How a JSON string literal writes the character `c`: a quote, a backslash, backspace, tab,
/// line feed, form feed and carriage return as their two-character escapes, every other
/// character below U+0020 as `\u00` and two lowercase hexadecimal digits, and every other
/// character as it is.
pub open spec fn json_escape_char(c: char) -> Seq<char> {
    if c == '"' {
        seq!['\\', '"']
    } else if c == '\\' {
        seq!['\\', '\\']
    } else if c == '\u{8}' {
        seq!['\\', 'b']
    } else if c == '\t' {
        seq!['\\', 't']
    } else if c == '\n' {
        seq!['\\', 'n']
    } else if c == '\u{c}' {
        seq!['\\', 'f']
    } else if c == '\r' {
        seq!['\\', 'r']
    } else if (c as u32) < 0x20 {
        seq!['\\', 'u', '0', '0', hex_digit(((c as u32) / 16) as nat), hex_digit(((c as u32) % 16) as nat)]
    } else {
        seq![c]
    }
}

/// The characters of `s`, each written as a JSON string literal writes it.
pub open spec fn json_escaped(s: Seq<char>) -> Seq<char>
    decreases s.len(),
{
    if s.len() == 0 {
        Seq::empty()
    } else {
        json_escape_char(s[0]) + json_escaped(s.drop_first())
    }
}

/// The JSON string literal of the text `s`, quotes included.
pub open spec fn json_quoted(s: Seq<char>) -> Seq<char> {
    seq!['"'] + json_escaped(s) + seq!['"']
}

/// The character that the two-character escape `\e` stands for.
pub open spec fn short_escape(e: char) -> Option<char> {
    if e == '"' {
        Some('"')
    } else if e == '\\' {
        Some('\\')
    } else if e == '/' {
        Some('/')
    } else if e == 'b' {
        Some('\u{8}')
    } else if e == 'f' {
        Some('\u{c}')
    } else if e == 'n' {
        Some('\n')
    } else if e == 'r' {
        Some('\r')
    } else if e == 't' {
        Some('\t')
    } else {
        None
    }
}

/// The value of the hexadecimal digit `c`, either case.
pub open spec fn hex_value(c: char) -> Option<nat> {
    if '0' <= c && c <= '9' {
        Some((c as nat - 48) as nat)
    } else if 'a' <= c && c <= 'f' {
        Some((c as nat - 87) as nat)
    } else if 'A' <= c && c <= 'F' {
        Some((c as nat - 55) as nat)
    } else {
        None
    }
}

/// The code point that the four hexadecimal digits `h` write.
pub open spec fn hex4_value(h: Seq<char>) -> Option<nat> {
    match (hex_value(h[0]), hex_value(h[1]), hex_value(h[2]), hex_value(h[3])) {
        (Some(a), Some(b), Some(c), Some(d)) => Some(a * 4096 + b * 256 + c * 16 + d),
        _ => None,
    }
}

/// `c` followed by the text of `rest`, when `rest` reads.
pub open spec fn prepend(c: char, rest: Option<Seq<char>>) -> Option<Seq<char>> {
    match rest {
        Some(r) => Some(seq![c] + r),
        None => None,
    }
}

/// The text that the inside of a JSON string literal stands for, or `None` when it is not the
/// inside of one: an unescaped quote or control character, or an unknown escape, makes it
/// unreadable. A `\u` escape is read when it names a code point outside the surrogates.
pub open spec fn json_unescaped(b: Seq<char>) -> Option<Seq<char>>
    decreases b.len(),
{
    if b.len() == 0 {
        Some(Seq::empty())
    } else if b[0] == '\\' {
        if b.len() < 2 {
            None
        } else {
            match short_escape(b[1]) {
                Some(c) => prepend(c, json_unescaped(b.skip(2))),
                None => if b[1] == 'u' && b.len() >= 6 {
                    match hex4_value(b.subrange(2, 6)) {
                        Some(v) => if v < 0xD800 || (0xE000 <= v && v < 0x10000) {
                            prepend(v as char, json_unescaped(b.skip(6)))
                        } else {
                            None
                        },
                        None => None,
                    }
                } else {
                    None
                },
            }
        }
    } else if b[0] == '"' || (b[0] as u32) < 0x20 {
        None
    } else {
        prepend(b[0], json_unescaped(b.drop_first()))
    }
}

/// The text that the JSON string literal `lit` stands for, or `None` when `lit` is not one
/// string literal.
pub open spec fn json_string_value(lit: Seq<char>) -> Option<Seq<char>> {
    if lit.len() >= 2 && lit[0] == '"' && lit.last() == '"' {
        json_unescaped(lit.subrange(1, lit.len() - 1))
    } else {
        None
    }
}

proof fn lemma_unescape_escaped(s: Seq<char>)
    ensures
        json_unescaped(json_escaped(s)) == Some(s),
    decreases s.len(),
{
    if s.len() > 0 {
        let c = s[0];
        let e = json_escape_char(c);
        let r = json_escaped(s.drop_first());
        let b = e + r;
        lemma_unescape_escaped(s.drop_first());
        assert(json_escaped(s) == b);
        assert(seq![c] + s.drop_first() =~= s);
        if e.len() == 1 {
            assert(b.drop_first() =~= r);
            assert(b[0] == c);
        } else if e.len() == 2 {
            assert(b.skip(2) =~= r);
            assert(b[0] == '\\' && b[1] == e[1]);
        } else {
            assert((c as u32) < 0x20);
            let hi = ((c as u32) / 16) as nat;
            let lo = ((c as u32) % 16) as nat;
            assert(b.skip(6) =~= r);
            assert(b.subrange(2, 6) =~= seq!['0', '0', hex_digit(hi), hex_digit(lo)]);
            assert(hex_value(hex_digit(hi)) == Some(hi));
            assert(hex_value(hex_digit(lo)) == Some(lo));
            assert(hex4_value(b.subrange(2, 6)) == Some(hi * 16 + lo));
            assert(hi * 16 + lo == c as u32);
            assert(((hi * 16 + lo) as nat) as char == c) by {
                vstd::utf8::char_u32_cast(c, c as u32);
            }
            assert(b[0] == '\\' && b[1] == 'u');
        }
    }
}

/// A text written as a JSON string literal reads back as the same text: the literal is one
/// well-formed string literal, whatever quotes, backslashes or control characters the text
/// holds.
pub proof fn lemma_json_quoted_reads_back(s: Seq<char>)
    ensures
        json_string_value(json_quoted(s)) == Some(s),
{
    let q = json_quoted(s);
    lemma_unescape_escaped(s);
    assert(q.subrange(1, q.len() - 1) =~= json_escaped(s));
}

} // verus!
