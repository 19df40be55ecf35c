//! Shared machinery for the line-delimited wire grammar: literal
//! matching, and stepping lemmas that walk a parser across the
//! concatenation an encoder produced.
//!
//! Every encoder in this crate renders a value as a concatenation of
//! fixed literals, escaped strings, decimal numbers and base64 text. The
//! lemmas here each consume one such segment: from `tail(s, i) == segment
//! + rest` they conclude what the corresponding parser returns and that
//! the cursor then sits on `rest`.

use vstd::prelude::*;
use vstd::string::StrSliceExecFns;
use crate::json::{spec_escape, spec_parse_jstring, lemma_parse_jstring};
use crate::num::{
    spec_dec_nat, spec_dec_i32, spec_parse_u64, spec_parse_i32, is_dec_digit, lemma_parse_dec_u64,
    lemma_parse_dec_i32,
};
use crate::base64::{spec_b64, spec_parse_b64, is_b64_char, lemma_parse_b64};

verus! {

/// The text of `s` from position `i` on.
pub open spec fn tail(s: Seq<char>, i: int) -> Seq<char> {
    s.subrange(i, s.len() as int)
}

/// Matches the fixed text `lit` at position `i` and yields the position
/// just past it.
pub open spec fn spec_lit(s: Seq<char>, i: int, lit: Seq<char>) -> Option<int> {
    if 0 <= i && i + lit.len() <= s.len() && s.subrange(i, i + lit.len()) == lit {
        Some(i + lit.len())
    } else {
        None
    }
}

/// Executable twin of [`spec_lit`].
pub fn expect_lit(s: &Vec<char>, i: usize, lit: &str) -> (r: Option<usize>)
    requires
        i <= s@.len(),
    ensures
        match r {
            Some(j) => spec_lit(s@, i as int, lit@) == Some(j as int) && i <= j <= s@.len(),
            None => spec_lit(s@, i as int, lit@) is None,
        },
{
    let n = lit.unicode_len();
    let slen = s.len();
    if slen - i < n {
        proof {
            assert(spec_lit(s@, i as int, lit@) is None);
        }
        return None;
    }
    let mut k: usize = 0;
    while k < n
        invariant
            k <= n,
            i + n <= slen,
            slen == s@.len(),
            n == lit@.len(),
            forall|t: int| 0 <= t < k ==> s@[i + t] == lit@[t],
        decreases n - k,
    {
        if s[i + k] != lit.get_char(k) {
            proof {
                assert(s@.subrange(i as int, i + lit@.len())[k as int] == s@[i + k]);
                assert(s@.subrange(i as int, i + lit@.len()) != lit@);
            }
            return None;
        }
        k = k + 1;
    }
    proof {
        assert(s@.subrange(i as int, i + lit@.len()) =~= lit@);
    }
    Some(i + n)
}

/// Consumes the literal `lit` at the cursor.
pub proof fn lemma_lit_step(s: Seq<char>, i: int, lit: Seq<char>, rest: Seq<char>)
    requires
        0 <= i <= s.len(),
        tail(s, i) == lit + rest,
    ensures
        spec_lit(s, i, lit) == Some(i + lit.len()),
        0 <= i + lit.len() <= s.len(),
        tail(s, i + lit.len()) == rest,
{
    assert(tail(s, i).len() == s.len() - i);
    let j = i + lit.len();
    assert(s.subrange(i, j) =~= lit) by {
        assert(forall|k: int| 0 <= k < lit.len() ==> #[trigger] s.subrange(i, j)[k] == tail(s, i)[k]);
    }
    assert(tail(s, j) =~= rest) by {
        assert(forall|k: int| 0 <= k < rest.len() ==> #[trigger] tail(s, j)[k] == tail(s, i)[k
            + lit.len()]);
    }
}

/// No character of `s` is a newline.
pub open spec fn no_nl(s: Seq<char>) -> bool {
    forall|k: int| 0 <= k < s.len() ==> s[k] != '\n'
}

/// Newline-freedom carries over concatenation.
pub proof fn lemma_concat_no_nl(a: Seq<char>, b: Seq<char>)
    requires
        no_nl(a),
        no_nl(b),
    ensures
        no_nl(a + b),
{
    assert forall|k: int| 0 <= k < (a + b).len() implies (a + b)[k] != '\n' by {
        if k < a.len() {
            assert((a + b)[k] == a[k]);
        } else {
            assert((a + b)[k] == b[k - a.len()]);
        }
    }
}

/// Consumes an escaped string value and its closing quote at the cursor.
pub proof fn lemma_jstr_step(s: Seq<char>, i: int, content: Seq<char>, rest: Seq<char>)
    requires
        0 <= i <= s.len(),
        tail(s, i) == spec_escape(content) + (seq!['"'] + rest),
    ensures
        spec_parse_jstring(s, i) == Some((content, i + spec_escape(content).len() + 1)),
        0 <= i + spec_escape(content).len() + 1 <= s.len(),
        tail(s, i + spec_escape(content).len() + 1) == rest,
{
    let e = spec_escape(content);
    assert(tail(s, i).len() == s.len() - i);
    let j = i + e.len() + 1;
    assert(s.subrange(i, i + e.len()) =~= e) by {
        assert(forall|k: int| 0 <= k < e.len() ==> #[trigger] s.subrange(i, i + e.len())[k] == tail(
            s,
            i,
        )[k]);
    }
    assert(s[i + e.len()] == '"') by {
        assert(tail(s, i)[e.len() as int] == '"');
    }
    lemma_parse_jstring(s, i, content);
    assert(tail(s, j) =~= rest) by {
        assert(forall|k: int| 0 <= k < rest.len() ==> #[trigger] tail(s, j)[k] == tail(s, i)[k
            + e.len() + 1]);
    }
}

/// Consumes the decimal rendering of a `u64` at the cursor; the text that
/// follows must not begin with a digit.
pub proof fn lemma_u64_step(s: Seq<char>, i: int, n: u64, rest: Seq<char>)
    requires
        0 <= i <= s.len(),
        tail(s, i) == spec_dec_nat(n as nat) + rest,
        rest.len() > 0,
        !is_dec_digit(rest[0]),
    ensures
        spec_parse_u64(s, i) == Some((n, i + spec_dec_nat(n as nat).len())),
        0 <= i + spec_dec_nat(n as nat).len() <= s.len(),
        tail(s, i + spec_dec_nat(n as nat).len()) == rest,
{
    let e = spec_dec_nat(n as nat);
    assert(tail(s, i).len() == s.len() - i);
    let j = i + e.len();
    assert(s.subrange(i, j) =~= e) by {
        assert(forall|k: int| 0 <= k < e.len() ==> #[trigger] s.subrange(i, j)[k] == tail(s, i)[k]);
    }
    assert(s[j] == rest[0]) by {
        assert(tail(s, i)[e.len() as int] == rest[0]);
    }
    lemma_parse_dec_u64(s, i, n);
    assert(tail(s, j) =~= rest) by {
        assert(forall|k: int| 0 <= k < rest.len() ==> #[trigger] tail(s, j)[k] == tail(s, i)[k
            + e.len()]);
    }
}

/// Consumes the decimal rendering of an `i32` at the cursor; the text
/// that follows must not begin with a digit.
pub proof fn lemma_i32_step(s: Seq<char>, i: int, p: i32, rest: Seq<char>)
    requires
        0 <= i <= s.len(),
        tail(s, i) == spec_dec_i32(p as int) + rest,
        rest.len() > 0,
        !is_dec_digit(rest[0]),
    ensures
        spec_parse_i32(s, i) == Some((p, i + spec_dec_i32(p as int).len())),
        0 <= i + spec_dec_i32(p as int).len() <= s.len(),
        tail(s, i + spec_dec_i32(p as int).len()) == rest,
{
    let e = spec_dec_i32(p as int);
    assert(tail(s, i).len() == s.len() - i);
    let j = i + e.len();
    assert(s.subrange(i, j) =~= e) by {
        assert(forall|k: int| 0 <= k < e.len() ==> #[trigger] s.subrange(i, j)[k] == tail(s, i)[k]);
    }
    assert(s[j] == rest[0]) by {
        assert(tail(s, i)[e.len() as int] == rest[0]);
    }
    lemma_parse_dec_i32(s, i, p);
    assert(tail(s, j) =~= rest) by {
        assert(forall|k: int| 0 <= k < rest.len() ==> #[trigger] tail(s, j)[k] == tail(s, i)[k
            + e.len()]);
    }
}

/// Consumes the base64 rendering of a byte sequence at the cursor; the
/// text that follows must not begin with a base64 character.
pub proof fn lemma_b64_step(s: Seq<char>, i: int, d: Seq<u8>, rest: Seq<char>)
    requires
        0 <= i <= s.len(),
        tail(s, i) == spec_b64(d) + rest,
        rest.len() > 0,
        !is_b64_char(rest[0]),
    ensures
        spec_parse_b64(s, i) == Some((d, i + spec_b64(d).len())),
        0 <= i + spec_b64(d).len() <= s.len(),
        tail(s, i + spec_b64(d).len()) == rest,
{
    let e = spec_b64(d);
    assert(tail(s, i).len() == s.len() - i);
    let j = i + e.len();
    assert(s.subrange(i, j) =~= e) by {
        assert(forall|k: int| 0 <= k < e.len() ==> #[trigger] s.subrange(i, j)[k] == tail(s, i)[k]);
    }
    assert(s[j] == rest[0]) by {
        assert(tail(s, i)[e.len() as int] == rest[0]);
    }
    lemma_parse_b64(s, i, d);
    assert(tail(s, j) =~= rest) by {
        assert(forall|k: int| 0 <= k < rest.len() ==> #[trigger] tail(s, j)[k] == tail(s, i)[k
            + e.len()]);
    }
}

} // verus!
