//! Base64 rendering and parsing of the raw bytes carried in a data chunk
//! on the wire, with a proof that parsing inverts rendering.
//!
//! The standard alphabet is used, with `=` padding, and groups of three
//! bytes become four characters.

use vstd::prelude::*;
use vstd::arithmetic::div_mod::{lemma_fundamental_div_mod, lemma_fundamental_div_mod_converse};

verus! {

pub open spec fn b64_char(v: nat) -> char {
    if v < 26 {
        ((65 + v) as u8) as char
    } else if v < 52 {
        ((97 + (v - 26)) as u8) as char
    } else if v < 62 {
        ((48 + (v - 52)) as u8) as char
    } else if v == 62 {
        '+'
    } else {
        '/'
    }
}

pub open spec fn is_b64_char(c: char) -> bool {
    (65 <= c as u32 && c as u32 <= 90) || (97 <= c as u32 && c as u32 <= 122) || (48 <= c as u32
        && c as u32 <= 57) || c == '+' || c == '/'
}

pub open spec fn b64_val(c: char) -> nat {
    if 65 <= c as u32 && c as u32 <= 90 {
        (c as u32 - 65) as nat
    } else if 97 <= c as u32 && c as u32 <= 122 {
        (c as u32 - 97 + 26) as nat
    } else if 48 <= c as u32 && c as u32 <= 57 {
        (c as u32 - 48 + 52) as nat
    } else if c == '+' {
        62
    } else {
        63
    }
}

pub proof fn lemma_b64_char(v: nat)
    requires
        v < 64,
    ensures
        is_b64_char(b64_char(v)),
        b64_val(b64_char(v)) == v,
        b64_char(v) != '=',
        b64_char(v) != '"',
        b64_char(v) != '\n',
{
}

// The four sextets of a byte group, and the bytes rebuilt from them.

pub open spec fn sx0(b0: u8) -> nat {
    (b0 as nat) / 4
}

pub open spec fn sx1(b0: u8, b1: u8) -> nat {
    ((b0 as nat) % 4) * 16 + (b1 as nat) / 16
}

pub open spec fn sx2(b1: u8, b2: u8) -> nat {
    ((b1 as nat) % 16) * 4 + (b2 as nat) / 64
}

pub open spec fn sx3(b2: u8) -> nat {
    (b2 as nat) % 64
}

pub open spec fn byte0(v0: nat, v1: nat) -> nat {
    v0 * 4 + v1 / 16
}

pub open spec fn byte1(v1: nat, v2: nat) -> nat {
    (v1 % 16) * 16 + v2 / 4
}

pub open spec fn byte2(v2: nat, v3: nat) -> nat {
    (v2 % 4) * 64 + v3
}

pub proof fn lemma_sextet_bounds(b0: u8, b1: u8, b2: u8)
    ensures
        sx0(b0) < 64,
        sx1(b0, b1) < 64,
        sx2(b1, b2) < 64,
        sx3(b2) < 64,
{
    assert(sx0(b0) < 64 && sx1(b0, b1) < 64 && sx2(b1, b2) < 64 && sx3(b2) < 64)
        by (nonlinear_arith);
}

pub proof fn lemma_bytes_rebuilt(b0: u8, b1: u8, b2: u8)
    ensures
        byte0(sx0(b0), sx1(b0, b1)) == b0 as nat,
        byte1(sx1(b0, b1), sx2(b1, b2)) == b1 as nat,
        byte2(sx2(b1, b2), sx3(b2)) == b2 as nat,
        sx1(b0, b1) % 16 == (b1 as nat) / 16,
        sx2(b1, b2) % 4 == (b2 as nat) / 64,
{
    let n0 = b0 as int;
    let n1 = b1 as int;
    let n2 = b2 as int;
    assert(0 <= n1 / 16 < 16) by (nonlinear_arith)
        requires
            0 <= n1 <= 255,
    ;
    assert(0 <= n2 / 64 < 4) by (nonlinear_arith)
        requires
            0 <= n2 <= 255,
    ;
    lemma_fundamental_div_mod_converse(sx1(b0, b1) as int, 16, n0 % 4, n1 / 16);
    lemma_fundamental_div_mod_converse(sx2(b1, b2) as int, 4, n1 % 16, n2 / 64);
    lemma_fundamental_div_mod(n0, 4);
    lemma_fundamental_div_mod(n1, 16);
    lemma_fundamental_div_mod(n2, 64);
}

/// Base64 rendering of a byte sequence, padded with `=` so that its
/// length is always a multiple of four.
pub open spec fn spec_b64(b: Seq<u8>) -> Seq<char>
    decreases b.len(),
{
    if b.len() == 0 {
        Seq::<char>::empty()
    } else if b.len() == 1 {
        seq![b64_char(sx0(b[0])), b64_char(sx1(b[0], 0)), '=', '=']
    } else if b.len() == 2 {
        seq![b64_char(sx0(b[0])), b64_char(sx1(b[0], b[1])), b64_char(sx2(b[1], 0)), '=']
    } else {
        seq![
            b64_char(sx0(b[0])),
            b64_char(sx1(b[0], b[1])),
            b64_char(sx2(b[1], b[2])),
            b64_char(sx3(b[2])),
        ] + spec_b64(b.skip(3))
    }
}

/// Parses base64 groups from position `i` until the first character that
/// cannot begin a group; padding ends the data. Rejects non-canonical
/// padding bits.
pub open spec fn spec_parse_b64(s: Seq<char>, i: int) -> Option<(Seq<u8>, int)>
    decreases s.len() - i,
{
    if i < 0 || i >= s.len() || !is_b64_char(s[i]) {
        Some((Seq::<u8>::empty(), i))
    } else if i + 4 > s.len() {
        None
    } else if !is_b64_char(s[i + 1]) {
        None
    } else {
        let v0 = b64_val(s[i]);
        let v1 = b64_val(s[i + 1]);
        if s[i + 2] == '=' {
            if s[i + 3] == '=' && v1 % 16 == 0 && byte0(v0, v1) < 256 {
                Some((seq![byte0(v0, v1) as u8], i + 4))
            } else {
                None
            }
        } else if !is_b64_char(s[i + 2]) {
            None
        } else {
            let v2 = b64_val(s[i + 2]);
            if s[i + 3] == '=' {
                if v2 % 4 == 0 && byte0(v0, v1) < 256 && byte1(v1, v2) < 256 {
                    Some((seq![byte0(v0, v1) as u8, byte1(v1, v2) as u8], i + 4))
                } else {
                    None
                }
            } else if !is_b64_char(s[i + 3]) {
                None
            } else {
                let v3 = b64_val(s[i + 3]);
                if byte0(v0, v1) < 256 && byte1(v1, v2) < 256 && byte2(v2, v3) < 256 {
                    match spec_parse_b64(s, i + 4) {
                        Some((rest, j)) => Some(
                            (
                                seq![
                                    byte0(v0, v1) as u8,
                                    byte1(v1, v2) as u8,
                                    byte2(v2, v3) as u8,
                                ] + rest,
                                j,
                            ),
                        ),
                        None => None,
                    }
                } else {
                    None
                }
            }
        }
    }
}

/// Parsing inverts rendering: the base64 text of `b` at position `i`,
/// followed by the end of the text or a character that no group begins
/// with, parses back to `b`.
pub proof fn lemma_parse_b64(s: Seq<char>, i: int, b: Seq<u8>)
    requires
        0 <= i,
        i + spec_b64(b).len() <= s.len(),
        s.subrange(i, i + spec_b64(b).len()) == spec_b64(b),
        i + spec_b64(b).len() == s.len() || !is_b64_char(s[i + spec_b64(b).len()]),
    ensures
        spec_parse_b64(s, i) == Some((b, i + spec_b64(b).len())),
    decreases b.len(),
{
    let e = spec_b64(b);
    if b.len() == 0 {
        assert(e =~= Seq::<char>::empty());
    } else if b.len() == 1 {
        lemma_sextet_bounds(b[0], 0, 0);
        lemma_b64_char(sx0(b[0]));
        lemma_b64_char(sx1(b[0], 0));
        lemma_bytes_rebuilt(b[0], 0, 0);
        assert(s[i] == e[0] && s[i + 1] == e[1] && s[i + 2] == e[2] && s[i + 3] == e[3]) by {
            assert(forall|k: int| 0 <= k < e.len() ==> s.subrange(i, i + e.len())[k] == #[trigger] s[i
                + k]);
        }
        assert(sx1(b[0], 0) % 16 == 0);
        assert(byte0(sx0(b[0]), sx1(b[0], 0)) == b[0] as nat);
        assert(b =~= seq![b[0]]);
    } else if b.len() == 2 {
        lemma_sextet_bounds(b[0], b[1], 0);
        lemma_b64_char(sx0(b[0]));
        lemma_b64_char(sx1(b[0], b[1]));
        lemma_b64_char(sx2(b[1], 0));
        lemma_bytes_rebuilt(b[0], b[1], 0);
        assert(s[i] == e[0] && s[i + 1] == e[1] && s[i + 2] == e[2] && s[i + 3] == e[3]) by {
            assert(forall|k: int| 0 <= k < e.len() ==> s.subrange(i, i + e.len())[k] == #[trigger] s[i
                + k]);
        }
        assert(sx2(b[1], 0) % 4 == 0);
        assert(b =~= seq![b[0], b[1]]);
    } else {
        lemma_sextet_bounds(b[0], b[1], b[2]);
        lemma_b64_char(sx0(b[0]));
        lemma_b64_char(sx1(b[0], b[1]));
        lemma_b64_char(sx2(b[1], b[2]));
        lemma_b64_char(sx3(b[2]));
        lemma_bytes_rebuilt(b[0], b[1], b[2]);
        let rest = b.skip(3);
        let erest = spec_b64(rest);
        assert(e =~= seq![
            b64_char(sx0(b[0])),
            b64_char(sx1(b[0], b[1])),
            b64_char(sx2(b[1], b[2])),
            b64_char(sx3(b[2])),
        ] + erest);
        assert(forall|k: int| 0 <= k < e.len() ==> s.subrange(i, i + e.len())[k] == #[trigger] s[i
            + k]);
        assert(s[i] == e[0] && s[i + 1] == e[1] && s[i + 2] == e[2] && s[i + 3] == e[3]);
        assert(s.subrange(i + 4, i + 4 + erest.len()) =~= erest) by {
            assert(forall|k: int| 0 <= k < erest.len() ==> s.subrange(i + 4, i + 4 + erest.len())[k]
                == s[i + 4 + k] && #[trigger] erest[k] == e[k + 4]);
        }
        lemma_parse_b64(s, i + 4, rest);
        assert(b =~= seq![b[0], b[1], b[2]] + rest);
    }
}

/// Base64 text holds only alphabet characters and padding, so no
/// newline.
pub proof fn lemma_b64_no_nl(b: Seq<u8>)
    ensures
        forall|k: int| 0 <= k < spec_b64(b).len() ==> #[trigger] spec_b64(b)[k] != '\n',
    decreases b.len(),
{
    let e = spec_b64(b);
    if b.len() == 0 {
    } else if b.len() == 1 {
        lemma_sextet_bounds(b[0], 0, 0);
        lemma_b64_char(sx0(b[0]));
        lemma_b64_char(sx1(b[0], 0));
        assert(e =~= seq![b64_char(sx0(b[0])), b64_char(sx1(b[0], 0)), '=', '=']);
    } else if b.len() == 2 {
        lemma_sextet_bounds(b[0], b[1], 0);
        lemma_b64_char(sx0(b[0]));
        lemma_b64_char(sx1(b[0], b[1]));
        lemma_b64_char(sx2(b[1], 0));
        assert(e =~= seq![
            b64_char(sx0(b[0])),
            b64_char(sx1(b[0], b[1])),
            b64_char(sx2(b[1], 0)),
            '=',
        ]);
    } else {
        lemma_sextet_bounds(b[0], b[1], b[2]);
        lemma_b64_char(sx0(b[0]));
        lemma_b64_char(sx1(b[0], b[1]));
        lemma_b64_char(sx2(b[1], b[2]));
        lemma_b64_char(sx3(b[2]));
        lemma_b64_no_nl(b.skip(3));
        let head = seq![
            b64_char(sx0(b[0])),
            b64_char(sx1(b[0], b[1])),
            b64_char(sx2(b[1], b[2])),
            b64_char(sx3(b[2])),
        ];
        assert forall|k: int| 0 <= k < e.len() implies e[k] != '\n' by {
            if k < 4 {
                assert(e[k] == head[k]);
            } else {
                assert(e[k] == spec_b64(b.skip(3))[k - 4]);
            }
        }
    }
}

fn b64_char_of(v: u8) -> (c: char)
    requires
        v < 64,
    ensures
        c == b64_char(v as nat),
{
    if v < 26 {
        (65 + v) as char
    } else if v < 52 {
        (97 + (v - 26)) as char
    } else if v < 62 {
        (48 + (v - 52)) as char
    } else if v == 62 {
        '+'
    } else {
        '/'
    }
}

fn b64_val_of(c: char) -> (r: Option<u8>)
    ensures
        match r {
            Some(v) => is_b64_char(c) && v as nat == b64_val(c) && v < 64,
            None => !is_b64_char(c),
        },
{
    let cv = c as u32;
    if 65 <= cv && cv <= 90 {
        Some((cv - 65) as u8)
    } else if 97 <= cv && cv <= 122 {
        Some((cv - 97 + 26) as u8)
    } else if 48 <= cv && cv <= 57 {
        Some((cv - 48 + 52) as u8)
    } else if c == '+' {
        Some(62)
    } else if c == '/' {
        Some(63)
    } else {
        None
    }
}

/// Appends the base64 rendering of `b[i..]` to `out`.
fn b64_encode_from(b: &Vec<u8>, i: usize, out: &mut Vec<char>)
    requires
        i <= b@.len(),
    ensures
        final(out)@ == old(out)@ + spec_b64(b@.skip(i as int)),
    decreases b@.len() - i,
{
    let remaining = b.len() - i;
    if remaining == 0 {
        proof {
            assert(old(out)@ + spec_b64(b@.skip(i as int)) =~= out@);
        }
        return ;
    }
    let b0 = b[i];
    let ghost tail = b@.skip(i as int);
    proof {
        assert(tail[0] == b@[i as int]);
        if tail.len() >= 2 {
            assert(tail[1] == b@[i + 1]);
        }
        if tail.len() >= 3 {
            assert(tail[2] == b@[i + 2]);
        }
        lemma_sextet_bounds(b0, 0, 0);
    }
    if remaining == 1 {
        out.push(b64_char_of(b0 / 4));
        out.push(b64_char_of((b0 % 4) * 16));
        out.push('=');
        out.push('=');
        proof {
            assert(out@ =~= old(out)@ + spec_b64(tail));
        }
    } else if remaining == 2 {
        let b1 = b[i + 1];
        proof {
            lemma_sextet_bounds(b0, b1, 0);
        }
        out.push(b64_char_of(b0 / 4));
        out.push(b64_char_of((b0 % 4) * 16 + b1 / 16));
        out.push(b64_char_of((b1 % 16) * 4));
        out.push('=');
        proof {
            assert(out@ =~= old(out)@ + spec_b64(tail));
        }
    } else {
        let b1 = b[i + 1];
        let b2 = b[i + 2];
        proof {
            lemma_sextet_bounds(b0, b1, b2);
        }
        out.push(b64_char_of(b0 / 4));
        out.push(b64_char_of((b0 % 4) * 16 + b1 / 16));
        out.push(b64_char_of((b1 % 16) * 4 + b2 / 64));
        out.push(b64_char_of(b2 % 64));
        b64_encode_from(b, i + 3, out);
        proof {
            assert(tail.skip(3) =~= b@.skip(i + 3));
            assert(out@ =~= old(out)@ + spec_b64(tail));
        }
    }
}

/// Appends the base64 rendering of `b` to `out`.
pub fn b64_encode(b: &Vec<u8>, out: &mut Vec<char>)
    ensures
        final(out)@ == old(out)@ + spec_b64(b@),
{
    proof {
        assert(b@.skip(0) =~= b@);
    }
    b64_encode_from(b, 0, out);
}

/// Executable twin of [`spec_parse_b64`].
pub fn parse_b64(s: &Vec<char>, i: usize) -> (r: Option<(Vec<u8>, usize)>)
    requires
        i <= s@.len(),
    ensures
        match r {
            Some((b, j)) => spec_parse_b64(s@, i as int) == Some((b@, j as int)) && i <= j
                <= s@.len(),
            None => spec_parse_b64(s@, i as int) is None,
        },
    decreases s@.len() - i,
{
    if i == s.len() {
        return Some((Vec::new(), i));
    }
    let v0 = match b64_val_of(s[i]) {
        None => {
            return Some((Vec::new(), i));
        },
        Some(v) => v,
    };
    if s.len() - i < 4 {
        return None;
    }
    let v1 = match b64_val_of(s[i + 1]) {
        None => {
            return None;
        },
        Some(v) => v,
    };
    let c2 = s[i + 2];
    let c3 = s[i + 3];
    if c2 == '=' {
        if c3 == '=' && v1 % 16 == 0 && (v0 as u32) * 4 + (v1 as u32) / 16 < 256 {
            let mut out: Vec<u8> = Vec::new();
            out.push((v0 * 4 + v1 / 16) as u8);
            proof {
                assert(out@ =~= seq![byte0(v0 as nat, v1 as nat) as u8]);
            }
            return Some((out, i + 4));
        }
        return None;
    }
    let v2 = match b64_val_of(c2) {
        None => {
            return None;
        },
        Some(v) => v,
    };
    if c3 == '=' {
        if v2 % 4 == 0 && (v0 as u32) * 4 + (v1 as u32) / 16 < 256 && ((v1 as u32) % 16) * 16 + (
        v2 as u32) / 4 < 256 {
            let mut out: Vec<u8> = Vec::new();
            out.push((v0 * 4 + v1 / 16) as u8);
            out.push(((v1 % 16) * 16 + v2 / 4) as u8);
            proof {
                assert(out@ =~= seq![
                    byte0(v0 as nat, v1 as nat) as u8,
                    byte1(v1 as nat, v2 as nat) as u8,
                ]);
            }
            return Some((out, i + 4));
        }
        return None;
    }
    let v3 = match b64_val_of(c3) {
        None => {
            return None;
        },
        Some(v) => v,
    };
    if (v0 as u32) * 4 + (v1 as u32) / 16 < 256 && ((v1 as u32) % 16) * 16 + (v2 as u32) / 4 < 256
        && ((v2 as u32) % 4) * 64 + (v3 as u32) < 256 {
        match parse_b64(s, i + 4) {
            None => None,
            Some((rest, j)) => {
                let mut out: Vec<u8> = Vec::new();
                out.push((v0 * 4 + v1 / 16) as u8);
                out.push(((v1 % 16) * 16 + v2 / 4) as u8);
                out.push(((v2 % 4) * 64 + v3) as u8);
                let ghost head = out@;
                let mut rest = rest;
                out.append(&mut rest);
                proof {
                    assert(head =~= seq![
                        byte0(v0 as nat, v1 as nat) as u8,
                        byte1(v1 as nat, v2 as nat) as u8,
                        byte2(v2 as nat, v3 as nat) as u8,
                    ]);
                }
                Some((out, j))
            },
        }
    } else {
        None
    }
}

} // verus!
