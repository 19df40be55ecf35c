//! Decimal rendering and parsing of the integer fields that appear on the
//! wire (ports and chunk offsets), with a proof that parsing inverts
//! rendering.

use vstd::prelude::*;
use vstd::arithmetic::power::{pow, lemma_pow_positive, lemma_pow_adds, lemma_pow0, lemma_pow1};

verus! {

pub open spec fn is_dec_digit(c: char) -> bool {
    48 <= c as u32 && c as u32 <= 57
}

pub open spec fn digit_val(c: char) -> nat {
    (c as u32 - 48) as nat
}

pub open spec fn dec_digit(d: nat) -> char {
    ((48 + d) as u8) as char
}

/// The decimal rendering of `n`, most significant digit first, no sign,
/// no leading zeros (`0` itself renders as the single digit `0`).
pub open spec fn spec_dec_nat(n: nat) -> Seq<char>
    decreases n,
{
    if n < 10 {
        seq![dec_digit(n)]
    } else {
        spec_dec_nat(n / 10).push(dec_digit(n % 10))
    }
}

/// The value of a digit sequence, most significant digit first.
pub open spec fn val_digits(s: Seq<char>) -> nat
    decreases s.len(),
{
    if s.len() == 0 {
        0
    } else {
        val_digits(s.drop_last()) * 10 + digit_val(s.last())
    }
}

pub open spec fn all_dec_digits(s: Seq<char>) -> bool {
    forall|k: int| 0 <= k < s.len() ==> is_dec_digit(#[trigger] s[k])
}

pub proof fn lemma_dec_nat_digits(n: nat)
    ensures
        spec_dec_nat(n).len() >= 1,
        all_dec_digits(spec_dec_nat(n)),
        val_digits(spec_dec_nat(n)) == n,
        n > 0 ==> spec_dec_nat(n)[0] != '0',
    decreases n,
{
    if n < 10 {
        let s1 = spec_dec_nat(n);
        assert(s1 =~= seq![dec_digit(n)]);
        assert(s1.last() == dec_digit(n));
        assert(s1.drop_last() =~= Seq::<char>::empty());
        assert(val_digits(s1.drop_last()) == 0);
        assert(val_digits(s1) == val_digits(s1.drop_last()) * 10 + digit_val(s1.last()));
        assert(digit_val(dec_digit(n)) == n);
        assert(n > 0 ==> dec_digit(n) != '0');
    } else {
        lemma_dec_nat_digits(n / 10);
        let pre = spec_dec_nat(n / 10);
        let whole = spec_dec_nat(n);
        assert(whole =~= pre.push(dec_digit(n % 10)));
        assert(whole.drop_last() =~= pre);
        assert(whole.last() == dec_digit(n % 10));
        assert(digit_val(dec_digit(n % 10)) == n % 10);
        assert(val_digits(whole) == (n / 10) * 10 + n % 10);
        assert((n / 10) * 10 + n % 10 == n) by (nonlinear_arith);
        assert(whole[0] == pre[0]);
        assert(forall|k: int| 0 <= k < whole.len() ==> is_dec_digit(#[trigger] whole[k])) by {
            assert(forall|k: int| 0 <= k < pre.len() ==> is_dec_digit(#[trigger] pre[k]));
        }
    }
}

/// Greedy digit reader from position `i`, accumulator `acc`; stops at the
/// first non-digit or at the end, and fails on `u64` overflow.
pub open spec fn spec_parse_digits(s: Seq<char>, i: int, acc: u64) -> Option<(u64, int)>
    decreases s.len() - i,
{
    if i < 0 || i >= s.len() || !is_dec_digit(s[i]) {
        Some((acc, i))
    } else {
        let v = acc * 10 + digit_val(s[i]);
        if v > 0xffff_ffff_ffff_ffffu64 {
            None
        } else {
            spec_parse_digits(s, i + 1, v as u64)
        }
    }
}

/// Parses the canonical decimal rendering of a `u64` at position `i`:
/// one or more digits, no leading zero.
pub open spec fn spec_parse_u64(s: Seq<char>, i: int) -> Option<(u64, int)> {
    if i < 0 || i >= s.len() || !is_dec_digit(s[i]) {
        None
    } else if s[i] == '0' {
        Some((0u64, i + 1))
    } else {
        spec_parse_digits(s, i, 0u64)
    }
}

proof fn lemma_val_digits_prepend(s: Seq<char>, i: int, j: int)
    requires
        0 <= i < j <= s.len(),
    ensures
        val_digits(s.subrange(i, j)) == digit_val(s[i]) * pow(10, (j - i - 1) as nat) + val_digits(
            s.subrange(i + 1, j),
        ),
    decreases j - i,
{
    if j == i + 1 {
        assert(s.subrange(i, j) =~= seq![s[i]]);
        assert(s.subrange(i + 1, j) =~= Seq::<char>::empty());
        assert(s.subrange(i, j).drop_last() =~= Seq::<char>::empty());
        lemma_pow0(10);
    } else {
        lemma_val_digits_prepend(s, i, j - 1);
        let a = s.subrange(i, j);
        let b = s.subrange(i, j - 1);
        assert(a.drop_last() =~= b);
        assert(a.last() == s[j - 1]);
        let a2 = s.subrange(i + 1, j);
        let b2 = s.subrange(i + 1, j - 1);
        assert(a2.drop_last() =~= b2);
        assert(a2.last() == s[j - 1]);
        let e = (j - i - 2) as nat;
        lemma_pow_adds(10, e, 1);
        lemma_pow1(10);
        let d = digit_val(s[i]);
        assert(val_digits(a) == val_digits(b) * 10 + digit_val(s[j - 1]));
        assert(val_digits(b) == d * pow(10, e) + val_digits(b2));
        assert((d * pow(10, e) + val_digits(b2)) * 10 == d * (pow(10, e) * 10) + val_digits(b2)
            * 10) by (nonlinear_arith);
    }
}

proof fn lemma_parse_digits_exact(s: Seq<char>, i: int, j: int, acc: u64)
    requires
        0 <= i <= j <= s.len(),
        all_dec_digits(s.subrange(i, j)),
        j == s.len() || !is_dec_digit(s[j]),
        acc * pow(10, (j - i) as nat) + val_digits(s.subrange(i, j)) <= 0xffff_ffff_ffff_ffffu64,
    ensures
        spec_parse_digits(s, i, acc) == Some(
            ((acc * pow(10, (j - i) as nat) + val_digits(s.subrange(i, j))) as u64, j),
        ),
    decreases j - i,
{
    if i == j {
        lemma_pow0(10);
        assert(s.subrange(i, j) =~= Seq::<char>::empty());
    } else {
        assert(is_dec_digit(s[i])) by {
            assert(s.subrange(i, j)[0] == s[i]);
        }
        let d = digit_val(s[i]);
        lemma_val_digits_prepend(s, i, j);
        let e = (j - i - 1) as nat;
        lemma_pow_positive(10, e);
        let restval = val_digits(s.subrange(i + 1, j));
        let total = acc * pow(10, (j - i) as nat) + val_digits(s.subrange(i, j));
        lemma_pow_adds(10, e, 1);
        lemma_pow1(10);
        let p = pow(10, e);
        assert(pow(10, (j - i) as nat) == p * 10);
        assert(val_digits(s.subrange(i, j)) == d * p + restval);
        assert(acc * (p * 10) + (d * p + restval) == (acc * 10 + d) * p + restval)
            by (nonlinear_arith);
        assert(total == (acc * 10 + d) * p + restval);
        // the new accumulator does not overflow: it is at most the total
        assert(acc * 10 + d <= (acc * 10 + d) * pow(10, e)) by (nonlinear_arith)
            requires
                pow(10, e) >= 1,
                acc * 10 + d >= 0,
        ;
        let v = (acc * 10 + d) as u64;
        assert(all_dec_digits(s.subrange(i + 1, j))) by {
            assert(forall|k: int| 0 <= k < j - i - 1 ==> is_dec_digit(
                #[trigger] s.subrange(i + 1, j)[k],
            )) by {
                assert(forall|k: int| 0 <= k < j - i - 1 ==> #[trigger] s.subrange(i + 1, j)[k]
                    == s.subrange(i, j)[k + 1]);
            }
        }
        lemma_parse_digits_exact(s, i + 1, j, v);
    }
}

/// Parsing inverts rendering: the canonical digits of `n` at position `i`,
/// followed by the end of the text or a non-digit, parse to `n`.
pub proof fn lemma_parse_dec_u64(s: Seq<char>, i: int, n: u64)
    requires
        0 <= i,
        i + spec_dec_nat(n as nat).len() <= s.len(),
        s.subrange(i, i + spec_dec_nat(n as nat).len()) == spec_dec_nat(n as nat),
        i + spec_dec_nat(n as nat).len() == s.len() || !is_dec_digit(
            s[i + spec_dec_nat(n as nat).len()],
        ),
    ensures
        spec_parse_u64(s, i) == Some((n, i + spec_dec_nat(n as nat).len())),
{
    lemma_dec_nat_digits(n as nat);
    let d = spec_dec_nat(n as nat);
    let j = i + d.len();
    assert(s[i] == d[0]) by {
        assert(s.subrange(i, j)[0] == s[i]);
    }
    assert(is_dec_digit(s[i]));
    if n == 0 {
        assert(d =~= seq![dec_digit(0)]);
        assert(s[i] == '0');
    } else {
        assert(s[i] != '0');
        lemma_pow0(10);
        assert(all_dec_digits(s.subrange(i, j)));
        assert(val_digits(s.subrange(i, j)) == n);
        lemma_parse_digits_exact(s, i, j, 0u64);
    }
}

/// The decimal rendering of a signed value: a minus sign, if negative,
/// then the digits of its magnitude.
pub open spec fn spec_dec_i32(p: int) -> Seq<char> {
    if p < 0 {
        seq!['-'] + spec_dec_nat((-p) as nat)
    } else {
        spec_dec_nat(p as nat)
    }
}

/// Parses the canonical decimal rendering of an `i32` at position `i`.
pub open spec fn spec_parse_i32(s: Seq<char>, i: int) -> Option<(i32, int)> {
    if i < 0 || i >= s.len() {
        None
    } else if s[i] == '-' {
        match spec_parse_u64(s, i + 1) {
            Some((n, j)) => if 0 < n && n <= 2147483648u64 {
                Some(((-(n as int)) as i32, j))
            } else {
                None
            },
            None => None,
        }
    } else {
        match spec_parse_u64(s, i) {
            Some((n, j)) => if n <= 2147483647u64 {
                Some((n as i32, j))
            } else {
                None
            },
            None => None,
        }
    }
}

/// Parsing inverts rendering for signed values.
pub proof fn lemma_parse_dec_i32(s: Seq<char>, i: int, p: i32)
    requires
        0 <= i,
        i + spec_dec_i32(p as int).len() <= s.len(),
        s.subrange(i, i + spec_dec_i32(p as int).len()) == spec_dec_i32(p as int),
        i + spec_dec_i32(p as int).len() == s.len() || !is_dec_digit(
            s[i + spec_dec_i32(p as int).len()],
        ),
    ensures
        spec_parse_i32(s, i) == Some((p, i + spec_dec_i32(p as int).len())),
{
    let e = spec_dec_i32(p as int);
    if p < 0 {
        let m = (-(p as int)) as nat;
        let d = spec_dec_nat(m);
        assert(e =~= seq!['-'] + d);
        assert(s[i] == '-' && s[i] == e[0]) by {
            assert(s.subrange(i, i + e.len())[0] == s[i]);
        }
        assert(s.subrange(i + 1, i + 1 + d.len()) =~= d) by {
            assert(forall|k: int|
                0 <= k < d.len() ==> #[trigger] s.subrange(i + 1, i + 1 + d.len())[k] == s[i + 1
                    + k] && s.subrange(i, i + e.len())[k + 1] == s[i + 1 + k]);
        }
        lemma_dec_nat_digits(m);
        assert(m <= 0xffff_ffff_ffff_ffffu64);
        lemma_parse_dec_u64(s, i + 1, m as u64);
        assert(0 < m && m <= 2147483648u64);
        assert((-(m as int)) as i32 == p);
    } else {
        lemma_parse_dec_u64(s, i, p as u64);
        assert(s[i] != '-') by {
            lemma_dec_nat_digits(p as nat);
            assert(s.subrange(i, i + e.len())[0] == s[i]);
            assert(is_dec_digit(e[0]));
        }
    }
}

/// A rendered unsigned number holds only digits, so no newline.
pub proof fn lemma_dec_nat_no_nl(n: nat)
    ensures
        forall|k: int|
            0 <= k < spec_dec_nat(n).len() ==> #[trigger] spec_dec_nat(n)[k] != '\n',
{
    lemma_dec_nat_digits(n);
}

/// A rendered signed number holds only digits and a minus sign, so no
/// newline.
pub proof fn lemma_dec_i32_no_nl(p: int)
    ensures
        forall|k: int|
            0 <= k < spec_dec_i32(p).len() ==> #[trigger] spec_dec_i32(p)[k] != '\n',
{
    if p < 0 {
        let m = (-p) as nat;
        lemma_dec_nat_digits(m);
        assert forall|k: int| 0 <= k < spec_dec_i32(p).len() implies #[trigger] spec_dec_i32(p)[k]
            != '\n' by {
            if k == 0 {
                assert(spec_dec_i32(p)[0] == '-');
            } else {
                assert(spec_dec_i32(p)[k] == spec_dec_nat(m)[k - 1]);
            }
        }
    } else {
        lemma_dec_nat_digits(p as nat);
        assert forall|k: int| 0 <= k < spec_dec_i32(p).len() implies #[trigger] spec_dec_i32(p)[k]
            != '\n' by {
            assert(spec_dec_i32(p)[k] == spec_dec_nat(p as nat)[k]);
        }
    }
}

fn digit_char(d: u8) -> (c: char)
    requires
        d < 10,
    ensures
        c == dec_digit(d as nat),
{
    (48 + d) as char
}

/// The decimal rendering of `n` as characters.
pub fn u64_to_dec(n: u64) -> (v: Vec<char>)
    ensures
        v@ == spec_dec_nat(n as nat),
    decreases n,
{
    if n < 10 {
        let mut v: Vec<char> = Vec::new();
        v.push(digit_char(n as u8));
        proof {
            assert(v@ =~= seq![dec_digit(n as nat)]);
        }
        v
    } else {
        let mut v = u64_to_dec(n / 10);
        v.push(digit_char((n % 10) as u8));
        v
    }
}

/// Executable twin of [`spec_parse_digits`].
pub fn parse_digits(s: &Vec<char>, i: usize, acc: u64) -> (r: Option<(u64, usize)>)
    requires
        i <= s@.len(),
    ensures
        match r {
            Some((n, j)) => spec_parse_digits(s@, i as int, acc) == Some((n, j as int)) && i <= j
                <= s@.len(),
            None => spec_parse_digits(s@, i as int, acc) is None,
        },
    decreases s@.len() - i,
{
    if i == s.len() {
        return Some((acc, i));
    }
    let c = s[i];
    let cv = c as u32;
    if cv < 48 || cv > 57 {
        return Some((acc, i));
    }
    let d = (cv - 48) as u64;
    if acc > (0xffff_ffff_ffff_ffffu64 - d) / 10 {
        proof {
            assert(acc * 10 + digit_val(c) > 0xffff_ffff_ffff_ffffu64) by (nonlinear_arith)
                requires
                    acc > (0xffff_ffff_ffff_ffffu64 - digit_val(c)) / 10,
                    digit_val(c) < 10,
            ;
        }
        return None;
    }
    proof {
        assert(acc * 10 + digit_val(c) <= 0xffff_ffff_ffff_ffffu64) by (nonlinear_arith)
            requires
                acc <= (0xffff_ffff_ffff_ffffu64 - digit_val(c)) / 10,
                digit_val(c) < 10,
        ;
    }
    parse_digits(s, i + 1, acc * 10 + d)
}

/// The decimal rendering of a signed value as characters.
pub fn i32_to_dec(p: i32) -> (v: Vec<char>)
    ensures
        v@ == spec_dec_i32(p as int),
{
    if p < 0 {
        let m: u64 = (-(p as i64)) as u64;
        let mut v: Vec<char> = Vec::new();
        v.push('-');
        let mut digits = u64_to_dec(m);
        v.append(&mut digits);
        proof {
            assert(v@ =~= seq!['-'] + spec_dec_nat(m as nat));
        }
        v
    } else {
        u64_to_dec(p as u64)
    }
}

/// Executable twin of [`spec_parse_i32`].
pub fn parse_i32(s: &Vec<char>, i: usize) -> (r: Option<(i32, usize)>)
    requires
        i <= s@.len(),
    ensures
        match r {
            Some((p, j)) => spec_parse_i32(s@, i as int) == Some((p, j as int)) && i <= j
                <= s@.len(),
            None => spec_parse_i32(s@, i as int) is None,
        },
{
    if i == s.len() {
        return None;
    }
    if s[i] == '-' {
        match parse_u64(s, i + 1) {
            Some((n, j)) => {
                if 0 < n && n <= 2147483648u64 {
                    Some(((-(n as i64)) as i32, j))
                } else {
                    None
                }
            },
            None => None,
        }
    } else {
        match parse_u64(s, i) {
            Some((n, j)) => {
                if n <= 2147483647u64 {
                    Some((n as i32, j))
                } else {
                    None
                }
            },
            None => None,
        }
    }
}

/// Executable twin of [`spec_parse_u64`].
pub fn parse_u64(s: &Vec<char>, i: usize) -> (r: Option<(u64, usize)>)
    requires
        i <= s@.len(),
    ensures
        match r {
            Some((n, j)) => spec_parse_u64(s@, i as int) == Some((n, j as int)) && i <= j
                <= s@.len(),
            None => spec_parse_u64(s@, i as int) is None,
        },
{
    if i == s.len() {
        return None;
    }
    let c = s[i];
    let cv = c as u32;
    if cv < 48 || cv > 57 {
        return None;
    }
    if c == '0' {
        return Some((0, i + 1));
    }
    parse_digits(s, i, 0)
}

} // verus!
