//! Escaping and parsing of string values inside a wire frame, with a
//! proof that parsing inverts escaping.
//!
//! A string value is escaped so that it contains no bare quote, backslash
//! or control character; in particular the escaped text never contains a
//! newline, which keeps every frame on one line.

use vstd::prelude::*;

verus! {

pub open spec fn hex_digit(d: nat) -> char {
    if d < 10 {
        ((48 + d) as u8) as char
    } else {
        ((97 + (d - 10)) as u8) as char
    }
}

pub open spec fn is_hex_digit(c: char) -> bool {
    (48 <= c as u32 && c as u32 <= 57) || (97 <= c as u32 && c as u32 <= 102)
}

pub open spec fn hex_val(c: char) -> nat {
    if 48 <= c as u32 && c as u32 <= 57 {
        (c as u32 - 48) as nat
    } else {
        (c as u32 - 97 + 10) as nat
    }
}

pub proof fn lemma_hex_digit(d: nat)
    requires
        d < 16,
    ensures
        is_hex_digit(hex_digit(d)),
        hex_val(hex_digit(d)) == d,
        hex_digit(d) != '"',
        hex_digit(d) != '\n',
{
}

/// Division and remainder of a control character's code by sixteen stay
/// below sixteen.
proof fn lemma_ctrl_split(v: u32)
    requires
        v < 32,
    ensures
        v / 16 < 16,
        v % 16 < 16,
        (v / 16) * 16 + (v % 16) == v,
{
    assert(v / 16 < 16 && v % 16 < 16 && (v / 16) * 16 + (v % 16) == v) by (nonlinear_arith)
        requires
            v < 32,
    ;
}

proof fn lemma_subrange_index(s: Seq<char>, a: int, b: int, k: int)
    requires
        0 <= a,
        0 <= k,
        a + k < b <= s.len(),
    ensures
        s.subrange(a, b)[k] == s[a + k],
{
}

/// The escaped form of one character.
pub open spec fn esc_char(c: char) -> Seq<char> {
    if c == '"' {
        seq!['\\', '"']
    } else if c == '\\' {
        seq!['\\', '\\']
    } else if c == '\n' {
        seq!['\\', 'n']
    } else if c == '\r' {
        seq!['\\', 'r']
    } else if c == '\t' {
        seq!['\\', 't']
    } else if (c as u32) < 32 {
        seq!['\\', 'u', '0', '0', hex_digit((c as u32 / 16) as nat), hex_digit(
            (c as u32 % 16) as nat,
        )]
    } else {
        seq![c]
    }
}

/// The escaped form of a whole string value.
pub open spec fn spec_escape(s: Seq<char>) -> Seq<char>
    decreases s.len(),
{
    if s.len() == 0 {
        Seq::<char>::empty()
    } else {
        esc_char(s[0]) + spec_escape(s.skip(1))
    }
}

/// The code of a control character rebuilt from its two hex digits is
/// the character itself.
proof fn lemma_char_code(c: char, v: nat)
    requires
        (c as u32) < 32,
        v == c as u32,
    ensures
        ((v as u8) as char) == c,
{
}

/// No character of an escaped string is a newline, so a frame built from
/// escaped values stays on one line.
pub proof fn lemma_escape_clean(s: Seq<char>)
    ensures
        forall|k: int| 0 <= k < spec_escape(s).len() ==> #[trigger] spec_escape(s)[k] != '\n',
    decreases s.len(),
{
    if s.len() > 0 {
        lemma_escape_clean(s.skip(1));
        let e = esc_char(s[0]);
        let c = s[0];
        assert forall|k: int| 0 <= k < e.len() implies e[k] != '\n' by {
            if c == '"' || c == '\\' || c == '\n' || c == '\r' || c == '\t' {
            } else if (c as u32) < 32 {
                lemma_ctrl_split(c as u32);
                lemma_hex_digit((c as u32 / 16) as nat);
                lemma_hex_digit((c as u32 % 16) as nat);
            } else {
            }
        }
        assert(forall|k: int|
            0 <= k < spec_escape(s).len() ==> #[trigger] spec_escape(s)[k] == if k < e.len() {
                e[k]
            } else {
                spec_escape(s.skip(1))[k - e.len()]
            });
    }
}

/// Escaping distributes over concatenation.
pub proof fn lemma_escape_concat(a: Seq<char>, b: Seq<char>)
    ensures
        spec_escape(a + b) == spec_escape(a) + spec_escape(b),
    decreases a.len(),
{
    if a.len() == 0 {
        assert(a + b =~= b);
        assert(spec_escape(a) + spec_escape(b) =~= spec_escape(b));
    } else {
        lemma_escape_concat(a.skip(1), b);
        assert((a + b).skip(1) =~= a.skip(1) + b);
        assert((a + b)[0] == a[0]);
        assert(esc_char(a[0]) + (spec_escape(a.skip(1)) + spec_escape(b)) =~= (esc_char(a[0])
            + spec_escape(a.skip(1))) + spec_escape(b));
    }
}

/// A string whose characters all stand for themselves escapes to itself.
pub proof fn lemma_escape_plain(s: Seq<char>)
    requires
        forall|k: int|
            0 <= k < s.len() ==> (#[trigger] s[k]) as u32 >= 32 && s[k] != '"' && s[k] != '\\',
    ensures
        spec_escape(s) == s,
    decreases s.len(),
{
    if s.len() == 0 {
        assert(spec_escape(s) =~= s);
    } else {
        assert(s[0] as u32 >= 32 && s[0] != '"' && s[0] != '\\');
        lemma_escape_plain(s.skip(1));
        assert(esc_char(s[0]) =~= seq![s[0]]);
        assert(seq![s[0]] + s.skip(1) =~= s);
    }
}

/// Parses an escaped string value from position `i` up to and including
/// the closing quote; yields the unescaped content and the position just
/// past the quote.
pub open spec fn spec_parse_jstring(s: Seq<char>, i: int) -> Option<(Seq<char>, int)>
    decreases s.len() - i,
{
    if i < 0 || i >= s.len() {
        None
    } else if s[i] == '"' {
        Some((Seq::<char>::empty(), i + 1))
    } else if s[i] == '\\' {
        if i + 1 >= s.len() {
            None
        } else {
            let c = s[i + 1];
            if c == '"' || c == '\\' || c == 'n' || c == 'r' || c == 't' {
                let d = if c == '"' {
                    '"'
                } else if c == '\\' {
                    '\\'
                } else if c == 'n' {
                    '\n'
                } else if c == 'r' {
                    '\r'
                } else {
                    '\t'
                };
                match spec_parse_jstring(s, i + 2) {
                    Some((rest, j)) => Some((seq![d] + rest, j)),
                    None => None,
                }
            } else if c == 'u' {
                if i + 6 > s.len() {
                    None
                } else if s[i + 2] == '0' && s[i + 3] == '0' && is_hex_digit(s[i + 4])
                    && is_hex_digit(s[i + 5]) {
                    let v = hex_val(s[i + 4]) * 16 + hex_val(s[i + 5]);
                    match spec_parse_jstring(s, i + 6) {
                        Some((rest, j)) => Some((seq![((v as u8) as char)] + rest, j)),
                        None => None,
                    }
                } else {
                    None
                }
            } else {
                None
            }
        }
    } else {
        match spec_parse_jstring(s, i + 1) {
            Some((rest, j)) => Some((seq![s[i]] + rest, j)),
            None => None,
        }
    }
}

/// Parsing inverts escaping: the escaped form of `content` at position
/// `i`, followed by a closing quote, parses back to `content`.
pub proof fn lemma_parse_jstring(s: Seq<char>, i: int, content: Seq<char>)
    requires
        0 <= i,
        i + spec_escape(content).len() + 1 <= s.len(),
        s.subrange(i, i + spec_escape(content).len()) == spec_escape(content),
        s[i + spec_escape(content).len()] == '"',
    ensures
        spec_parse_jstring(s, i) == Some((content, i + spec_escape(content).len() + 1)),
    decreases content.len(),
{
    let e = spec_escape(content);
    if content.len() == 0 {
        assert(e =~= Seq::<char>::empty());
    } else {
        let c = content[0];
        let ec = esc_char(c);
        let erest = spec_escape(content.skip(1));
        assert(e =~= ec + erest);
        assert forall|k: int| 0 <= k < ec.len() implies s[i + k] == ec[k] by {
            lemma_subrange_index(s, i, i + e.len(), k);
        }
        assert(s.subrange(i + ec.len(), i + e.len()) =~= erest) by {
            assert forall|k: int|
                0 <= k < erest.len() implies s.subrange(i + ec.len(), i + e.len())[k]
                == #[trigger] erest[k] by {
                lemma_subrange_index(s, i + ec.len(), i + e.len(), k);
                lemma_subrange_index(s, i, i + e.len(), ec.len() + k);
                assert(e[ec.len() + k] == erest[k]);
            }
        }
        lemma_parse_jstring(s, i + ec.len(), content.skip(1));
        assert(content =~= seq![c] + content.skip(1));
        if c == '"' || c == '\\' || c == '\n' || c == '\r' || c == '\t' {
            assert(s[i] == ec[0] && s[i + 1] == ec[1]);
            assert(s[i] == '\\');
        } else if (c as u32) < 32 {
            lemma_ctrl_split(c as u32);
            let h1 = (c as u32 / 16) as nat;
            let h0 = (c as u32 % 16) as nat;
            lemma_hex_digit(h1);
            lemma_hex_digit(h0);
            assert(s[i] == ec[0] && s[i + 1] == ec[1] && s[i + 2] == ec[2] && s[i + 3] == ec[3]
                && s[i + 4] == ec[4] && s[i + 5] == ec[5]);
            assert(s[i + 4] == hex_digit(h1) && s[i + 5] == hex_digit(h0));
            let v = hex_val(s[i + 4]) * 16 + hex_val(s[i + 5]);
            assert(v == h1 * 16 + h0);
            assert(v == c as u32);
            lemma_char_code(c, v);
        } else {
            assert(ec =~= seq![c]);
            assert(s[i] == ec[0]);
            assert(s[i] == c);
        }
    }
}

fn hex_digit_of(d: u8) -> (c: char)
    requires
        d < 16,
    ensures
        c == hex_digit(d as nat),
{
    if d < 10 {
        (48 + d) as char
    } else {
        (97 + (d - 10)) as char
    }
}

/// Appends the escaped form of one character to `out`.
fn escape_char_into(c: char, out: &mut Vec<char>)
    ensures
        final(out)@ == old(out)@ + esc_char(c),
{
    if c == '"' {
        out.push('\\');
        out.push('"');
    } else if c == '\\' {
        out.push('\\');
        out.push('\\');
    } else if c == '\n' {
        out.push('\\');
        out.push('n');
    } else if c == '\r' {
        out.push('\\');
        out.push('r');
    } else if c == '\t' {
        out.push('\\');
        out.push('t');
    } else {
        let cv = c as u32;
        if cv < 32 {
            out.push('\\');
            out.push('u');
            out.push('0');
            out.push('0');
            out.push(hex_digit_of((cv / 16) as u8));
            out.push(hex_digit_of((cv % 16) as u8));
        } else {
            out.push(c);
        }
    }
    proof {
        assert(out@ =~= old(out)@ + esc_char(c));
    }
}

/// Appends the escaped form of `s` to `out`.
pub fn escape_into(s: &str, out: &mut Vec<char>)
    ensures
        final(out)@ == old(out)@ + spec_escape(s@),
{
    let n = s.unicode_len();
    let mut i: usize = 0;
    while i < n
        invariant
            i <= n,
            n == s@.len(),
            out@ == old(out)@ + spec_escape(s@.subrange(0, i as int)),
        decreases n - i,
    {
        let c = s.get_char(i);
        escape_char_into(c, out);
        proof {
            let pre = s@.subrange(0, i as int);
            let pre1 = s@.subrange(0, i + 1);
            assert(pre1 =~= pre + seq![c]);
            lemma_escape_concat(pre, seq![c]);
            assert(seq![c].skip(1) =~= Seq::<char>::empty());
            assert(spec_escape(seq![c]) == esc_char(seq![c][0]) + spec_escape(seq![c].skip(1)));
            assert(spec_escape(seq![c]) =~= esc_char(c));
            assert(out@ =~= old(out)@ + spec_escape(pre1));
        }
        i = i + 1;
    }
    proof {
        assert(s@.subrange(0, n as int) =~= s@);
    }
}

/// Executable twin of [`spec_parse_jstring`].
pub fn parse_jstring(s: &Vec<char>, i: usize) -> (r: Option<(Vec<char>, usize)>)
    requires
        i <= s@.len(),
    ensures
        match r {
            Some((content, j)) => spec_parse_jstring(s@, i as int) == Some((content@, j as int))
                && i <= j <= s@.len(),
            None => spec_parse_jstring(s@, i as int) is None,
        },
    decreases s@.len() - i,
{
    if i == s.len() {
        return None;
    }
    let c0 = s[i];
    if c0 == '"' {
        return Some((Vec::new(), i + 1));
    }
    if c0 == '\\' {
        if i + 1 == s.len() {
            return None;
        }
        let c = s[i + 1];
        if c == '"' || c == '\\' || c == 'n' || c == 'r' || c == 't' {
            let d = if c == '"' {
                '"'
            } else if c == '\\' {
                '\\'
            } else if c == 'n' {
                '\n'
            } else if c == 'r' {
                '\r'
            } else {
                '\t'
            };
            match parse_jstring(s, i + 2) {
                Some((rest, j)) => {
                    let mut content = rest;
                    content.insert(0, d);
                    return Some((content, j));
                },
                None => {
                    return None;
                },
            }
        } else if c == 'u' {
            if s.len() - i < 6 {
                return None;
            }
            if s[i + 2] == '0' && s[i + 3] == '0' {
                let h1 = hex_val_of(s[i + 4]);
                let h0 = hex_val_of(s[i + 5]);
                match (h1, h0) {
                    (Some(v1), Some(v0)) => {
                        let v = v1 * 16 + v0;
                        match parse_jstring(s, i + 6) {
                            Some((rest, j)) => {
                                let mut content = rest;
                                content.insert(0, v as char);
                                return Some((content, j));
                            },
                            None => {
                                return None;
                            },
                        }
                    },
                    _ => {
                        return None;
                    },
                }
            } else {
                return None;
            }
        } else {
            return None;
        }
    }
    match parse_jstring(s, i + 1) {
        Some((rest, j)) => {
            let mut content = rest;
            content.insert(0, c0);
            Some((content, j))
        },
        None => None,
    }
}

fn hex_val_of(c: char) -> (r: Option<u8>)
    ensures
        match r {
            Some(v) => is_hex_digit(c) && v as nat == hex_val(c) && v < 16,
            None => !is_hex_digit(c),
        },
{
    let cv = c as u32;
    if 48 <= cv && cv <= 57 {
        Some((cv - 48) as u8)
    } else if 97 <= cv && cv <= 102 {
        Some((cv - 97 + 10) as u8)
    } else {
        None
    }
}

} // verus!
