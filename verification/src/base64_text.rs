//! Standard Base64 (RFC 4648, `+` and `/`, `=` padding): how bytes are written, and how the
//! text is read back.
use vstd::prelude::*;

verus! {

/// The character of the standard Base64 alphabet for the six-bit value `i`.
pub open spec fn alphabet(i: nat) -> char {
    if i < 26 {
        (65 + i) as char
    } else if i < 52 {
        (71 + i) as char
    } else if i < 62 {
        (i - 4) as char
    } else if i == 62 {
        '+'
    } else {
        '/'
    }
}

/// The standard, padded Base64 text of `b`: each group of three bytes becomes four
/// characters, and a last group of one or two bytes becomes two or three characters padded
/// with `=` to four.
pub open spec fn base64_standard(b: Seq<u8>) -> Seq<char>
    decreases b.len(),
{
    if b.len() == 0 {
        Seq::empty()
    } else if b.len() == 1 {
        seq![alphabet(b[0] as nat / 4), alphabet((b[0] as nat % 4) * 16), '=', '=']
    } else if b.len() == 2 {
        seq![
            alphabet(b[0] as nat / 4),
            alphabet((b[0] as nat % 4) * 16 + b[1] as nat / 16),
            alphabet((b[1] as nat % 16) * 4),
            '=',
        ]
    } else {
        seq![
            alphabet(b[0] as nat / 4),
            alphabet((b[0] as nat % 4) * 16 + b[1] as nat / 16),
            alphabet((b[1] as nat % 16) * 4 + b[2] as nat / 64),
            alphabet(b[2] as nat % 64),
        ] + base64_standard(b.skip(3))
    }
}

/// The six-bit value of a character of the standard Base64 alphabet.
pub open spec fn sextet(c: char) -> Option<nat> {
    if 'A' <= c && c <= 'Z' {
        Some((c as nat - 65) as nat)
    } else if 'a' <= c && c <= 'z' {
        Some((c as nat - 71) as nat)
    } else if '0' <= c && c <= '9' {
        Some((c as nat + 4) as nat)
    } else if c == '+' {
        Some(62)
    } else if c == '/' {
        Some(63)
    } else {
        None
    }
}

/// The bytes that a standard, padded Base64 text stands for, or `None` when it is not such a
/// text: its length is a multiple of four, `=` only pads its last group, and the bits that
/// padding leaves over are zero.
pub open spec fn base64_decoded(t: Seq<char>) -> Option<Seq<u8>>
    decreases t.len(),
{
    if t.len() == 0 {
        Some(Seq::empty())
    } else if t.len() < 4 {
        None
    } else {
        match (sextet(t[0]), sextet(t[1])) {
            (Some(a), Some(b)) => if t[2] == '=' && t[3] == '=' {
                if t.len() == 4 && b % 16 == 0 {
                    Some(seq![(a * 4 + b / 16) as u8])
                } else {
                    None
                }
            } else {
                match sextet(t[2]) {
                    Some(c) => if t[3] == '=' {
                        if t.len() == 4 && c % 4 == 0 {
                            Some(seq![(a * 4 + b / 16) as u8, ((b % 16) * 16 + c / 4) as u8])
                        } else {
                            None
                        }
                    } else {
                        match (sextet(t[3]), base64_decoded(t.skip(4))) {
                            (Some(d), Some(rest)) => Some(
                                seq![
                                    (a * 4 + b / 16) as u8,
                                    ((b % 16) * 16 + c / 4) as u8,
                                    ((c % 4) * 64 + d) as u8,
                                ] + rest,
                            ),
                            _ => None,
                        }
                    },
                    None => None,
                }
            },
            _ => None,
        }
    }
}

proof fn lemma_sextet_alphabet(i: nat)
    requires
        i < 64,
    ensures
        sextet(alphabet(i)) == Some(i),
        alphabet(i) != '=',
{
}

proof fn lemma_group(b0: u8, b1: u8, b2: u8)
    ensures
        (b0 as nat / 4) < 64,
        (b0 as nat % 4) * 16 + b1 as nat / 16 < 64,
        (b1 as nat % 16) * 4 + b2 as nat / 64 < 64,
        b2 as nat % 64 < 64,
        (b0 as nat / 4) * 4 + ((b0 as nat % 4) * 16 + b1 as nat / 16) / 16 == b0,
        (((b0 as nat % 4) * 16 + b1 as nat / 16) % 16) * 16 + ((b1 as nat % 16) * 4 + b2 as nat / 64) / 4 == b1,
        (((b1 as nat % 16) * 4 + b2 as nat / 64) % 4) * 64 + b2 as nat % 64 == b2,
        ((b0 as nat % 4) * 16) % 16 == 0,
        ((b1 as nat % 16) * 4) % 4 == 0,
        (b0 as nat / 4) * 4 + ((b0 as nat % 4) * 16) / 16 == b0,
        (((b0 as nat % 4) * 16 + b1 as nat / 16) % 16) * 16 + ((b1 as nat % 16) * 4) / 4 == b1,
{
    assert((b0 as nat / 4) * 4 + ((b0 as nat % 4) * 16 + b1 as nat / 16) / 16 == b0) by (nonlinear_arith)
        requires b0 < 256, b1 < 256;
    assert((((b0 as nat % 4) * 16 + b1 as nat / 16) % 16) * 16 + ((b1 as nat % 16) * 4 + b2 as nat / 64) / 4 == b1) by (nonlinear_arith)
        requires b0 < 256, b1 < 256, b2 < 256;
    assert((((b1 as nat % 16) * 4 + b2 as nat / 64) % 4) * 64 + b2 as nat % 64 == b2) by (nonlinear_arith)
        requires b1 < 256, b2 < 256;
    assert(((b0 as nat % 4) * 16) % 16 == 0) by (nonlinear_arith);
    assert(((b1 as nat % 16) * 4) % 4 == 0) by (nonlinear_arith);
    assert((b0 as nat / 4) * 4 + ((b0 as nat % 4) * 16) / 16 == b0) by (nonlinear_arith)
        requires b0 < 256;
    assert((((b0 as nat % 4) * 16 + b1 as nat / 16) % 16) * 16 + ((b1 as nat % 16) * 4) / 4 == b1) by (nonlinear_arith)
        requires b0 < 256, b1 < 256;
}

/// Bytes written as standard Base64 read back as the same bytes.
pub proof fn lemma_base64_reads_back(b: Seq<u8>)
    ensures
        base64_decoded(base64_standard(b)) == Some(b),
    decreases b.len(),
{
    if b.len() == 0 {
    } else if b.len() == 1 {
        lemma_group(b[0], 0, 0);
        lemma_sextet_alphabet(b[0] as nat / 4);
        lemma_sextet_alphabet((b[0] as nat % 4) * 16);
        assert(seq![((b[0] as nat / 4) * 4 + ((b[0] as nat % 4) * 16) / 16) as u8] =~= b);
    } else if b.len() == 2 {
        lemma_group(b[0], b[1], 0);
        lemma_sextet_alphabet(b[0] as nat / 4);
        lemma_sextet_alphabet((b[0] as nat % 4) * 16 + b[1] as nat / 16);
        lemma_sextet_alphabet((b[1] as nat % 16) * 4);
        let t = base64_standard(b);
        assert(base64_decoded(t) == Some(seq![b[0], b[1]]));
        assert(seq![b[0], b[1]] =~= b);
    } else {
        lemma_group(b[0], b[1], b[2]);
        lemma_sextet_alphabet(b[0] as nat / 4);
        lemma_sextet_alphabet((b[0] as nat % 4) * 16 + b[1] as nat / 16);
        lemma_sextet_alphabet((b[1] as nat % 16) * 4 + b[2] as nat / 64);
        lemma_sextet_alphabet(b[2] as nat % 64);
        lemma_base64_reads_back(b.skip(3));
        let t = base64_standard(b);
        let g = seq![
            alphabet(b[0] as nat / 4),
            alphabet((b[0] as nat % 4) * 16 + b[1] as nat / 16),
            alphabet((b[1] as nat % 16) * 4 + b[2] as nat / 64),
            alphabet(b[2] as nat % 64),
        ];
        assert(t == g + base64_standard(b.skip(3)));
        assert(t.skip(4) =~= base64_standard(b.skip(3)));
        assert(t[0] == g[0] && t[1] == g[1] && t[2] == g[2] && t[3] == g[3]);
        assert(seq![b[0], b[1], b[2]] + b.skip(3) =~= b);
    }
}

} // verus!
