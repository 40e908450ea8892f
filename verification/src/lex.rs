//! Lexical primitives of the case grammar.
//!
//! Every primitive works on a character slice and a start position, and its
//! contract ties the outcome to a specification-level parser over the
//! remaining character sequence. A specification parser returns the parsed
//! value and the number of characters consumed, or a structured failure with
//! a position relative to its input.

use vstd::prelude::*;

use crate::diag::{
    err_matches, pos_matches, spec_push_ctx, spec_shift, step_matches, Ctx, ParseErr, SErr,
};
use crate::number::{
    all_digits, clamp_exp, spec_canonical, Float, FloatV, EXP_CAP,
};

verus! {

// ---------------------------------------------------------------------------
// Character classes
// ---------------------------------------------------------------------------
/// Space, tab, line feed or carriage return.
pub open spec fn is_ws_char(c: char) -> bool {
    c == ' ' || c == '\t' || c == '\n' || c == '\r'
}

pub open spec fn is_digit_char(c: char) -> bool {
    48 <= c as u32 && c as u32 <= 57
}

pub open spec fn digit_val(c: char) -> u8 {
    (c as u32 - 48) as u8
}

pub open spec fn is_alpha_char(c: char) -> bool {
    (65 <= c as u32 && c as u32 <= 90) || (97 <= c as u32 && c as u32 <= 122)
}

pub open spec fn is_alnum_char(c: char) -> bool {
    is_alpha_char(c) || is_digit_char(c)
}

fn is_ws_exec(c: char) -> (r: bool)
    ensures
        r == is_ws_char(c),
{
    c == ' ' || c == '\t' || c == '\n' || c == '\r'
}

fn is_digit_exec(c: char) -> (r: bool)
    ensures
        r == is_digit_char(c),
{
    let u = c as u32;
    48 <= u && u <= 57
}

fn digit_val_exec(c: char) -> (r: u8)
    requires
        is_digit_char(c),
    ensures
        r == digit_val(c),
        r < 10,
{
    (c as u32 - 48) as u8
}

fn is_alpha_exec(c: char) -> (r: bool)
    ensures
        r == is_alpha_char(c),
{
    let u = c as u32;
    (65 <= u && u <= 90) || (97 <= u && u <= 122)
}

// ---------------------------------------------------------------------------
// Whitespace
// ---------------------------------------------------------------------------
/// The length of the whitespace prefix of `t`.
pub open spec fn spec_skip_ws(t: Seq<char>) -> int
    decreases t.len(),
{
    if t.len() > 0 && is_ws_char(t[0]) {
        1 + spec_skip_ws(t.skip(1))
    } else {
        0
    }
}

/// Consumes whitespace, as the grammar allows around every token.
pub fn skip_ws(s: &[char], pos: usize) -> (r: usize)
    requires
        pos <= s@.len(),
    ensures
        pos <= r <= s@.len(),
        r as int == pos + spec_skip_ws(s@.skip(pos as int)),
    decreases s@.len() - pos,
{
    if pos < s.len() && is_ws_exec(s[pos]) {
        let r = skip_ws(s, pos + 1);
        proof {
            assert(s@.skip(pos as int).skip(1) =~= s@.skip(pos + 1));
        }
        r
    } else {
        pos
    }
}

// ---------------------------------------------------------------------------
// Digit runs
// ---------------------------------------------------------------------------
/// The length of the prefix of digits and grouping underscores.
pub open spec fn num_run(t: Seq<char>) -> int
    decreases t.len(),
{
    if t.len() > 0 && (is_digit_char(t[0]) || t[0] == '_') {
        1 + num_run(t.skip(1))
    } else {
        0
    }
}

/// The digit values within the first `n` characters of `t`, underscores
/// discarded.
pub open spec fn digits_in(t: Seq<char>, n: int) -> Seq<u8>
    decreases n,
{
    if n <= 0 {
        Seq::<u8>::empty()
    } else {
        digits_in(t, n - 1) + if is_digit_char(t[n - 1]) {
            seq![digit_val(t[n - 1])]
        } else {
            Seq::<u8>::empty()
        }
    }
}

/// The number a digit sequence denotes.
pub open spec fn uint_val(ds: Seq<u8>) -> nat
    decreases ds.len(),
{
    if ds.len() == 0 {
        0
    } else {
        uint_val(ds.drop_last()) * 10 + ds.last() as nat
    }
}

pub proof fn lemma_num_run_bound(t: Seq<char>)
    ensures
        0 <= num_run(t) <= t.len(),
    decreases t.len(),
{
    if t.len() > 0 && (is_digit_char(t[0]) || t[0] == '_') {
        lemma_num_run_bound(t.skip(1));
    }
}

/// Appending a digit can only grow the denoted number.
proof fn lemma_uint_val_mono(ds: Seq<u8>, k: int)
    requires
        0 <= k <= ds.len(),
    ensures
        uint_val(ds) >= uint_val(ds.take(k)),
    decreases ds.len() - k,
{
    if k < ds.len() {
        lemma_uint_val_mono(ds, k + 1);
        assert(ds.take(k + 1).drop_last() =~= ds.take(k));
        assert(uint_val(ds.take(k + 1)) == uint_val(ds.take(k)) * 10 + ds.take(k + 1).last());
        assert(uint_val(ds.take(k)) * 10 >= uint_val(ds.take(k)));
    } else {
        assert(ds.take(k) =~= ds);
    }
}

/// Scans the maximal run of digits and underscores, collecting digit values.
fn scan_digits(s: &[char], pos: usize) -> (r: (Vec<u8>, usize))
    requires
        pos <= s@.len(),
    ensures
        pos <= r.1 <= s@.len(),
        r.1 as int == pos + num_run(s@.skip(pos as int)),
        r.0@ == digits_in(s@.skip(pos as int), num_run(s@.skip(pos as int))),
        all_digits(r.0@),
{
    let ghost t = s@.skip(pos as int);
    let mut p = pos;
    let mut ds: Vec<u8> = Vec::new();
    proof {
        assert(t.skip(0) =~= t);
    }
    while p < s.len() && (is_digit_exec(s[p]) || s[p] == '_')
        invariant
            pos <= p <= s@.len(),
            t == s@.skip(pos as int),
            num_run(t) == p - pos + num_run(t.skip(p - pos)),
            ds@ == digits_in(t, p - pos),
            all_digits(ds@),
        decreases s@.len() - p,
    {
        proof {
            assert(t.skip(p - pos)[0] == s@[p as int]);
            assert(t.skip(p - pos).skip(1) =~= t.skip(p - pos + 1));
            assert(t[p - pos] == s@[p as int]);
        }
        if is_digit_exec(s[p]) {
            ds.push(digit_val_exec(s[p]));
        }
        p = p + 1;
    }
    proof {
        assert(p < s@.len() ==> t.skip(p - pos)[0] == s@[p as int]);
        assert(num_run(t.skip(p - pos)) == 0);
    }
    (ds, p)
}

// ---------------------------------------------------------------------------
// Unsigned integers
// ---------------------------------------------------------------------------
/// One or more decimal digits, optionally followed by discarded grouping
/// underscores; fails if the denoted number does not fit the machine word.
pub open spec fn spec_uint(t: Seq<char>) -> Result<(usize, int), SErr> {
    if t.len() == 0 || !is_digit_char(t[0]) {
        Err(SErr { pos: 0, expected: None, contexts: seq![Ctx::Usize] })
    } else {
        let n = num_run(t);
        let v = uint_val(digits_in(t, n));
        if v > usize::MAX as nat {
            Err(SErr { pos: 0, expected: None, contexts: seq![Ctx::Usize] })
        } else {
            Ok((v as usize, n))
        }
    }
}

/// Parses an unsigned integer.
pub fn uint(s: &[char], pos: usize) -> (r: Result<(usize, usize), ParseErr>)
    requires
        pos <= s@.len(),
    ensures
        step_matches(r, spec_uint(s@.skip(pos as int)), pos as int),
        r matches Ok(x) ==> pos < x.1 <= s@.len(),
        r matches Err(e) ==> pos <= e.pos <= s@.len(),
{
    let ghost t = s@.skip(pos as int);
    if pos >= s.len() || !is_digit_exec(s[pos]) {
        let e = ParseErr { pos, expected: None, contexts: vec![Ctx::Usize] };
        proof {
            assert(pos < s@.len() ==> t[0] == s@[pos as int]);
            assert(e.contexts@ =~= seq![Ctx::Usize]);
        }
        return Err(e);
    }
    proof {
        assert(t[0] == s@[pos as int]);
        lemma_num_run_bound(t.skip(1));
    }
    let (ds, p) = scan_digits(s, pos);
    let ghost dsg = ds@;
    let mut acc: usize = 0;
    let mut i: usize = 0;
    while i < ds.len()
        invariant
            0 <= i <= dsg.len(),
            ds@ == dsg,
            all_digits(dsg),
            acc as nat == uint_val(dsg.take(i as int)),
            pos <= p <= s@.len(),
            t == s@.skip(pos as int),
            t.len() > 0 && is_digit_char(t[0]),
            dsg == digits_in(t, num_run(t)),
            p as int == pos + num_run(t),
            pos < p,
        decreases dsg.len() - i,
    {
        let d = ds[i];
        proof {
            assert(dsg.take(i + 1).drop_last() =~= dsg.take(i as int));
            assert(dsg.take(i + 1).last() == dsg[i as int]);
        }
        let wide: u128 = acc as u128 * 10 + d as u128;
        proof {
            assert(uint_val(dsg.take(i + 1)) == acc as nat * 10 + d as nat);
        }
        if wide > usize::MAX as u128 {
            proof {
                lemma_uint_val_mono(dsg, i + 1);
            }
            let e = ParseErr { pos, expected: None, contexts: vec![Ctx::Usize] };
            proof {
                assert(e.contexts@ =~= seq![Ctx::Usize]);
            }
            return Err(e);
        }
        acc = wide as usize;
        i = i + 1;
    }
    proof {
        assert(dsg.take(dsg.len() as int) =~= dsg);
    }
    Ok((acc, p))
}

/// The same digit run, kept as its digit sequence rather than a number.
pub open spec fn spec_decimal(t: Seq<char>) -> Result<(Seq<u8>, int), SErr> {
    if t.len() == 0 || !is_digit_char(t[0]) {
        Err(SErr { pos: 0, expected: None, contexts: seq![Ctx::Decimal] })
    } else {
        Ok((digits_in(t, num_run(t)), num_run(t)))
    }
}

/// Parses a digit run, returning the digit values with underscores dropped.
pub fn decimal(s: &[char], pos: usize) -> (r: Result<(Vec<u8>, usize), ParseErr>)
    requires
        pos <= s@.len(),
    ensures
        step_matches(r, spec_decimal(s@.skip(pos as int)), pos as int),
        r matches Ok(x) ==> pos < x.1 <= s@.len(),
        r matches Err(e) ==> pos <= e.pos <= s@.len(),
{
    let ghost t = s@.skip(pos as int);
    if pos >= s.len() || !is_digit_exec(s[pos]) {
        let e = ParseErr { pos, expected: None, contexts: vec![Ctx::Decimal] };
        proof {
            assert(pos < s@.len() ==> t[0] == s@[pos as int]);
            assert(e.contexts@ =~= seq![Ctx::Decimal]);
        }
        return Err(e);
    }
    proof {
        assert(t[0] == s@[pos as int]);
        lemma_num_run_bound(t.skip(1));
    }
    let (ds, p) = scan_digits(s, pos);
    proof {
        assert(ds.deep_view() =~= ds@);
    }
    Ok((ds, p))
}

// ---------------------------------------------------------------------------
// Floating-point literals
// ---------------------------------------------------------------------------
/// An optional leading sign: whether it is negative, and its width.
pub open spec fn spec_sign(t: Seq<char>) -> (bool, int) {
    if t.len() > 0 && t[0] == '-' {
        (true, 1)
    } else if t.len() > 0 && t[0] == '+' {
        (false, 1)
    } else {
        (false, 0)
    }
}

fn sign_at(s: &[char], pos: usize) -> (r: (bool, usize))
    requires
        pos <= s@.len(),
    ensures
        r.0 == spec_sign(s@.skip(pos as int)).0,
        r.1 as int == pos + spec_sign(s@.skip(pos as int)).1,
        pos <= r.1 <= s@.len(),
{
    let ghost t = s@.skip(pos as int);
    proof {
        assert(t.len() > 0 ==> t[0] == s@[pos as int]);
    }
    if pos < s.len() && s[pos] == '-' {
        (true, pos + 1)
    } else if pos < s.len() && s[pos] == '+' {
        (false, pos + 1)
    } else {
        (false, pos)
    }
}

/// The exponent magnitude a digit sequence denotes, accumulation stopping
/// once the running value has passed the clamp bound.
pub open spec fn exp_acc(ds: Seq<u8>) -> int
    decreases ds.len(),
{
    if ds.len() == 0 {
        0
    } else {
        let p = exp_acc(ds.drop_last());
        if p <= EXP_CAP as int {
            p * 10 + ds.last()
        } else {
            p
        }
    }
}

fn exp_acc_exec(ds: &Vec<u8>) -> (r: i64)
    requires
        all_digits(ds@),
    ensures
        r as int == exp_acc(ds@),
        0 <= r <= 10 * EXP_CAP + 9,
{
    let mut acc: i64 = 0;
    let mut i: usize = 0;
    while i < ds.len()
        invariant
            0 <= i <= ds@.len(),
            all_digits(ds@),
            acc as int == exp_acc(ds@.take(i as int)),
            0 <= acc <= 10 * EXP_CAP + 9,
        decreases ds@.len() - i,
    {
        proof {
            assert(ds@.take(i + 1).drop_last() =~= ds@.take(i as int));
            assert(ds@.take(i + 1).last() == ds@[i as int]);
        }
        if acc <= EXP_CAP {
            acc = acc * 10 + ds[i] as i64;
        }
        i = i + 1;
    }
    proof {
        assert(ds@.take(ds@.len() as int) =~= ds@);
    }
    acc
}

/// A mandatory exponent part: `e` or `E`, an optional sign, a digit run.
pub open spec fn spec_exp_req(t: Seq<char>) -> Option<(int, int)> {
    if t.len() > 0 && (t[0] == 'e' || t[0] == 'E') {
        let sn = spec_sign(t.skip(1));
        let t2 = t.skip(1 + sn.1);
        if t2.len() > 0 && is_digit_char(t2[0]) {
            let n = num_run(t2);
            let v = exp_acc(digits_in(t2, n));
            Some(
                (
                    if sn.0 {
                        -v
                    } else {
                        v
                    },
                    1 + sn.1 + n,
                ),
            )
        } else {
            None
        }
    } else {
        None
    }
}

/// An optional exponent part; absence contributes exponent zero.
pub open spec fn spec_exp_opt(t: Seq<char>) -> (int, int) {
    match spec_exp_req(t) {
        Some(r) => r,
        None => (0, 0),
    }
}

fn exp_req(s: &[char], pos: usize) -> (r: Option<(i64, usize)>)
    requires
        pos <= s@.len(),
    ensures
        match spec_exp_req(s@.skip(pos as int)) {
            Some(sv) => r matches Some(x) && x.0 as int == sv.0 && x.1 as int == pos + sv.1,
            None => r is None,
        },
        r matches Some(x) ==> pos < x.1 <= s@.len() && -(10 * EXP_CAP + 9) <= x.0 <= 10 * EXP_CAP
            + 9,
{
    let ghost t = s@.skip(pos as int);
    proof {
        assert(t.len() > 0 ==> t[0] == s@[pos as int]);
    }
    if pos < s.len() && (s[pos] == 'e' || s[pos] == 'E') {
        let (neg, p1) = sign_at(s, pos + 1);
        proof {
            assert(s@.skip(pos + 1) =~= t.skip(1));
            assert(s@.skip(p1 as int) =~= t.skip(1 + spec_sign(t.skip(1)).1));
            assert(s@.skip(p1 as int).len() > 0 ==> s@.skip(p1 as int)[0] == s@[p1 as int]);
        }
        if p1 < s.len() && is_digit_exec(s[p1]) {
            let (ds, p2) = scan_digits(s, p1);
            let v = exp_acc_exec(&ds);
            proof {
                lemma_num_run_bound(s@.skip(p1 as int).skip(1));
            }
            if neg {
                Some((-v, p2))
            } else {
                Some((v, p2))
            }
        } else {
            None
        }
    } else {
        None
    }
}

fn exp_opt(s: &[char], pos: usize) -> (r: (i64, usize))
    requires
        pos <= s@.len(),
    ensures
        r.0 as int == spec_exp_opt(s@.skip(pos as int)).0,
        r.1 as int == pos + spec_exp_opt(s@.skip(pos as int)).1,
        pos <= r.1 <= s@.len(),
        -(10 * EXP_CAP + 9) <= r.0 <= 10 * EXP_CAP + 9,
{
    match exp_req(s, pos) {
        Some(x) => x,
        None => (0, pos),
    }
}

/// A literal with a leading decimal point: sign, `.`, digits, optional
/// exponent.
pub open spec fn spec_float_dot(t: Seq<char>) -> Option<(FloatV, int)> {
    let sn = spec_sign(t);
    let t1 = t.skip(sn.1);
    if t1.len() > 0 && t1[0] == '.' {
        let t2 = t1.skip(1);
        if t2.len() > 0 && is_digit_char(t2[0]) {
            let n = num_run(t2);
            let ds = digits_in(t2, n);
            let eo = spec_exp_opt(t2.skip(n));
            Some((spec_canonical(sn.0, ds, clamp_exp(eo.0 - ds.len())), sn.1 + 1 + n + eo.1))
        } else {
            None
        }
    } else {
        None
    }
}

fn float_dot(s: &[char], pos: usize) -> (r: Option<(Float, usize)>)
    requires
        pos <= s@.len(),
    ensures
        match spec_float_dot(s@.skip(pos as int)) {
            Some(sv) => r matches Some(x) && x.0@ == sv.0 && x.1 as int == pos + sv.1,
            None => r is None,
        },
        r matches Some(x) ==> pos < x.1 <= s@.len(),
{
    let ghost t = s@.skip(pos as int);
    let (neg, p1) = sign_at(s, pos);
    proof {
        assert(s@.skip(p1 as int) =~= t.skip(spec_sign(t).1));
        assert(s@.skip(p1 as int).len() > 0 ==> s@.skip(p1 as int)[0] == s@[p1 as int]);
    }
    if p1 < s.len() && s[p1] == '.' {
        proof {
            assert(s@.skip(p1 + 1) =~= t.skip(spec_sign(t).1).skip(1));
            assert(s@.skip(p1 + 1).len() > 0 ==> s@.skip(p1 + 1)[0] == s@[p1 + 1]);
        }
        if p1 + 1 < s.len() && is_digit_exec(s[p1 + 1]) {
            let (ds, p2) = scan_digits(s, p1 + 1);
            proof {
                assert(s@.skip(p2 as int) =~= s@.skip(p1 + 1).skip(num_run(s@.skip(p1 + 1))));
                lemma_num_run_bound(s@.skip(p1 + 1).skip(1));
            }
            let (e, p3) = exp_opt(s, p2);
            let dlen = ds.len();
            let e2 = crate::number::clamp_exp_exec(e as i128 - dlen as i128);
            let f = Float::decimal(neg, ds, e2);
            Some((f, p3))
        } else {
            None
        }
    } else {
        None
    }
}

/// A literal in scientific notation: sign, digits, optional fraction, then a
/// mandatory exponent.
pub open spec fn spec_float_exp(t: Seq<char>) -> Option<(FloatV, int)> {
    let sn = spec_sign(t);
    let t1 = t.skip(sn.1);
    if t1.len() > 0 && is_digit_char(t1[0]) {
        let n = num_run(t1);
        let ids = digits_in(t1, n);
        let t2 = t1.skip(n);
        let fr: (Seq<u8>, int) = if t2.len() > 1 && t2[0] == '.' && is_digit_char(t2[1]) {
            let m = num_run(t2.skip(1));
            (digits_in(t2.skip(1), m), 1 + m)
        } else {
            (Seq::<u8>::empty(), 0)
        };
        match spec_exp_req(t2.skip(fr.1)) {
            Some(ev) => Some(
                (
                    spec_canonical(sn.0, ids + fr.0, clamp_exp(ev.0 - fr.0.len())),
                    sn.1 + n + fr.1 + ev.1,
                ),
            ),
            None => None,
        }
    } else {
        None
    }
}

#[verifier::rlimit(100)]
fn float_exp(s: &[char], pos: usize) -> (r: Option<(Float, usize)>)
    requires
        pos <= s@.len(),
    ensures
        match spec_float_exp(s@.skip(pos as int)) {
            Some(sv) => r matches Some(x) && x.0@ == sv.0 && x.1 as int == pos + sv.1,
            None => r is None,
        },
        r matches Some(x) ==> pos < x.1 <= s@.len(),
{
    let ghost t = s@.skip(pos as int);
    let (neg, p1) = sign_at(s, pos);
    proof {
        assert(s@.skip(p1 as int) =~= t.skip(spec_sign(t).1));
        assert(s@.skip(p1 as int).len() > 0 ==> s@.skip(p1 as int)[0] == s@[p1 as int]);
    }
    if p1 < s.len() && is_digit_exec(s[p1]) {
        let (mut ids, p2) = scan_digits(s, p1);
        let ghost t2 = t.skip(spec_sign(t).1).skip(num_run(t.skip(spec_sign(t).1)));
        proof {
            assert(s@.skip(p2 as int) =~= t2);
            lemma_num_run_bound(s@.skip(p1 as int).skip(1));
            assert(t2.len() > 0 ==> t2[0] == s@[p2 as int]);
            assert(t2.len() > 1 ==> t2[1] == s@[p2 + 1]);
        }
        let has_frac = p2 < s.len() && s[p2] == '.' && p2 + 1 < s.len() && is_digit_exec(
            s[p2 + 1],
        );
        let (flen, p3): (usize, usize) = if has_frac {
            let (mut fds, q) = scan_digits(s, p2 + 1);
            proof {
                assert(s@.skip(p2 + 1) =~= t2.skip(1));
            }
            let fl = fds.len();
            ids.append(&mut fds);
            (fl, q)
        } else {
            (0, p2)
        };
        proof {
            assert(s@.skip(p3 as int) =~= t2.skip(
                if t2.len() > 1 && t2[0] == '.' && is_digit_char(t2[1]) {
                    1 + num_run(t2.skip(1))
                } else {
                    0
                },
            ));
        }
        match exp_req(s, p3) {
            Some((e, p4)) => {
                let e2 = crate::number::clamp_exp_exec(e as i128 - flen as i128);
                let f = Float::decimal(neg, ids, e2);
                Some((f, p4))
            },
            None => None,
        }
    } else {
        None
    }
}

/// A plain decimal literal: sign, digits, `.`, optional digits.
pub open spec fn spec_float_point(t: Seq<char>) -> Option<(FloatV, int)> {
    let sn = spec_sign(t);
    let t1 = t.skip(sn.1);
    if t1.len() > 0 && is_digit_char(t1[0]) {
        let n = num_run(t1);
        let ids = digits_in(t1, n);
        let t2 = t1.skip(n);
        if t2.len() > 0 && t2[0] == '.' {
            let fr: (Seq<u8>, int) = if t2.len() > 1 && is_digit_char(t2[1]) {
                let m = num_run(t2.skip(1));
                (digits_in(t2.skip(1), m), m)
            } else {
                (Seq::<u8>::empty(), 0)
            };
            Some(
                (
                    spec_canonical(sn.0, ids + fr.0, clamp_exp(0 - fr.0.len())),
                    sn.1 + n + 1 + fr.1,
                ),
            )
        } else {
            None
        }
    } else {
        None
    }
}

fn float_point(s: &[char], pos: usize) -> (r: Option<(Float, usize)>)
    requires
        pos <= s@.len(),
    ensures
        match spec_float_point(s@.skip(pos as int)) {
            Some(sv) => r matches Some(x) && x.0@ == sv.0 && x.1 as int == pos + sv.1,
            None => r is None,
        },
        r matches Some(x) ==> pos < x.1 <= s@.len(),
{
    let ghost t = s@.skip(pos as int);
    let (neg, p1) = sign_at(s, pos);
    proof {
        assert(s@.skip(p1 as int) =~= t.skip(spec_sign(t).1));
        assert(s@.skip(p1 as int).len() > 0 ==> s@.skip(p1 as int)[0] == s@[p1 as int]);
    }
    if p1 < s.len() && is_digit_exec(s[p1]) {
        let (mut ids, p2) = scan_digits(s, p1);
        let ghost t2 = t.skip(spec_sign(t).1).skip(num_run(t.skip(spec_sign(t).1)));
        proof {
            assert(s@.skip(p2 as int) =~= t2);
            lemma_num_run_bound(s@.skip(p1 as int).skip(1));
            assert(t2.len() > 0 ==> t2[0] == s@[p2 as int]);
            assert(t2.len() > 1 ==> t2[1] == s@[p2 + 1]);
        }
        if p2 < s.len() && s[p2] == '.' {
            let has_frac = p2 + 1 < s.len() && is_digit_exec(s[p2 + 1]);
            let (flen, p3): (usize, usize) = if has_frac {
                let (mut fds, q) = scan_digits(s, p2 + 1);
                proof {
                    assert(s@.skip(p2 + 1) =~= t2.skip(1));
                }
                let fl = fds.len();
                ids.append(&mut fds);
                (fl, q)
            } else {
                (0, p2 + 1)
            };
            let e2 = crate::number::clamp_exp_exec(0i128 - flen as i128);
            let f = Float::decimal(neg, ids, e2);
            Some((f, p3))
        } else {
            None
        }
    } else {
        None
    }
}

/// A bare integer literal: sign and digits.
pub open spec fn spec_float_int(t: Seq<char>) -> Option<(FloatV, int)> {
    let sn = spec_sign(t);
    let t1 = t.skip(sn.1);
    if t1.len() > 0 && is_digit_char(t1[0]) {
        let n = num_run(t1);
        Some((spec_canonical(sn.0, digits_in(t1, n), 0), sn.1 + n))
    } else {
        None
    }
}

fn float_int(s: &[char], pos: usize) -> (r: Option<(Float, usize)>)
    requires
        pos <= s@.len(),
    ensures
        match spec_float_int(s@.skip(pos as int)) {
            Some(sv) => r matches Some(x) && x.0@ == sv.0 && x.1 as int == pos + sv.1,
            None => r is None,
        },
        r matches Some(x) ==> pos < x.1 <= s@.len(),
{
    let ghost t = s@.skip(pos as int);
    let (neg, p1) = sign_at(s, pos);
    proof {
        assert(s@.skip(p1 as int) =~= t.skip(spec_sign(t).1));
        assert(s@.skip(p1 as int).len() > 0 ==> s@.skip(p1 as int)[0] == s@[p1 as int]);
    }
    if p1 < s.len() && is_digit_exec(s[p1]) {
        let (ids, p2) = scan_digits(s, p1);
        proof {
            lemma_num_run_bound(s@.skip(p1 as int).skip(1));
        }
        let f = Float::decimal(neg, ids, 0);
        Some((f, p2))
    } else {
        None
    }
}

/// A floating-point literal, the alternatives tried in this order: `Inf`,
/// `-Inf`, leading-dot decimals, scientific notation, plain decimals, bare
/// integers. The first alternative that matches wins.
pub open spec fn spec_float(t: Seq<char>) -> Result<(FloatV, int), SErr> {
    if t.len() >= 3 && t[0] == 'I' && t[1] == 'n' && t[2] == 'f' {
        Ok((FloatV::Inf { neg: false }, 3))
    } else if t.len() >= 4 && t[0] == '-' && t[1] == 'I' && t[2] == 'n' && t[3] == 'f' {
        Ok((FloatV::Inf { neg: true }, 4))
    } else {
        match spec_float_dot(t) {
            Some(r) => Ok(r),
            None => match spec_float_exp(t) {
                Some(r) => Ok(r),
                None => match spec_float_point(t) {
                    Some(r) => Ok(r),
                    None => match spec_float_int(t) {
                        Some(r) => Ok(r),
                        None => Err(
                            SErr { pos: 0, expected: None, contexts: seq![Ctx::FloatLit] },
                        ),
                    },
                },
            },
        }
    }
}

/// Parses a floating-point literal into its canonical decimal value.
pub fn float(s: &[char], pos: usize) -> (r: Result<(Float, usize), ParseErr>)
    requires
        pos <= s@.len(),
    ensures
        step_matches(r, spec_float(s@.skip(pos as int)), pos as int),
        r matches Ok(x) ==> pos < x.1 <= s@.len(),
        r matches Err(e) ==> pos <= e.pos <= s@.len(),
{
    let ghost t = s@.skip(pos as int);
    proof {
        assert(forall|i: int| 0 <= i < t.len() ==> t[i] == s@[pos + i]);
    }
    if s.len() - pos >= 3 && s[pos] == 'I' && s[pos + 1] == 'n' && s[pos + 2] == 'f' {
        return Ok((Float::Inf { neg: false }, pos + 3));
    }
    if s.len() - pos >= 4 && s[pos] == '-' && s[pos + 1] == 'I' && s[pos + 2] == 'n' && s[pos + 3]
        == 'f' {
        return Ok((Float::Inf { neg: true }, pos + 4));
    }
    match float_dot(s, pos) {
        Some(x) => {
            return Ok(x);
        },
        None => {},
    }
    match float_exp(s, pos) {
        Some(x) => {
            return Ok(x);
        },
        None => {},
    }
    match float_point(s, pos) {
        Some(x) => {
            return Ok(x);
        },
        None => {},
    }
    match float_int(s, pos) {
        Some(x) => {
            return Ok(x);
        },
        None => {},
    }
    let e = ParseErr { pos, expected: None, contexts: vec![Ctx::FloatLit] };
    proof {
        assert(e.contexts@ =~= seq![Ctx::FloatLit]);
    }
    Err(e)
}

// ---------------------------------------------------------------------------
// Quoted strings
// ---------------------------------------------------------------------------
/// A character a quoted string may hold unescaped: any code point of 0x20
/// or above except the quote and the backslash.
pub open spec fn is_nonescaped_char(c: char) -> bool {
    c as u32 >= 0x20 && c as u32 != 0x27 && c as u32 != 0x5C
}

/// Whether a character may stand unescaped in a quoted string.
pub fn is_nonescaped_string_char(c: char) -> (r: bool)
    ensures
        r == is_nonescaped_char(c),
{
    let cv = c as u32;
    cv >= 0x20 && cv != 0x27 && cv != 0x5C
}

/// The second character of a recognized two-character escape.
pub open spec fn is_escape_char(c: char) -> bool {
    c == '\'' || c == '\\' || c == '/' || c == 'b' || c == 'f' || c == 'n' || c == 'r' || c == 't'
        || c == 'u'
}

fn is_escape_exec(c: char) -> (r: bool)
    ensures
        r == is_escape_char(c),
{
    c == '\'' || c == '\\' || c == '/' || c == 'b' || c == 'f' || c == 'n' || c == 'r' || c == 't'
        || c == 'u'
}

pub open spec fn nonesc_run(t: Seq<char>) -> int
    decreases t.len(),
{
    if t.len() > 0 && is_nonescaped_char(t[0]) {
        1 + nonesc_run(t.skip(1))
    } else {
        0
    }
}

/// One or more unescaped text characters.
pub open spec fn spec_nonescaped_string(t: Seq<char>) -> Result<int, SErr> {
    if t.len() > 0 && is_nonescaped_char(t[0]) {
        Ok(nonesc_run(t))
    } else {
        Err(SErr { pos: 0, expected: None, contexts: seq![Ctx::NonescapedString] })
    }
}

/// Consumes a maximal run of unescaped string characters.
pub fn nonescaped_string(s: &[char], pos: usize) -> (r: Result<usize, ParseErr>)
    requires
        pos <= s@.len(),
    ensures
        pos_matches(r, spec_nonescaped_string(s@.skip(pos as int)), pos as int),
        r matches Ok(p) ==> pos < p <= s@.len(),
        r matches Err(e) ==> pos <= e.pos <= s@.len(),
{
    let ghost t = s@.skip(pos as int);
    proof {
        assert(t.len() > 0 ==> t[0] == s@[pos as int]);
    }
    if pos >= s.len() || !is_nonescaped_string_char(s[pos]) {
        let e = ParseErr { pos, expected: None, contexts: vec![Ctx::NonescapedString] };
        proof {
            assert(e.contexts@ =~= seq![Ctx::NonescapedString]);
        }
        return Err(e);
    }
    let mut p = pos;
    proof {
        assert(t.skip(0) =~= t);
    }
    while p < s.len() && is_nonescaped_string_char(s[p])
        invariant
            pos <= p <= s@.len(),
            t == s@.skip(pos as int),
            nonesc_run(t) == p - pos + nonesc_run(t.skip(p - pos)),
        decreases s@.len() - p,
    {
        proof {
            assert(t.skip(p - pos)[0] == s@[p as int]);
            assert(t.skip(p - pos).skip(1) =~= t.skip(p - pos + 1));
        }
        p = p + 1;
    }
    proof {
        assert(p < s@.len() ==> t.skip(p - pos)[0] == s@[p as int]);
        assert(nonesc_run(t.skip(p - pos)) == 0);
    }
    Ok(p)
}

/// A recognized two-character escape.
pub open spec fn spec_escape_code(t: Seq<char>) -> Result<int, SErr> {
    if t.len() >= 2 && t[0] == '\\' && is_escape_char(t[1]) {
        Ok(2)
    } else {
        Err(SErr { pos: 0, expected: None, contexts: seq![Ctx::EscapeCode] })
    }
}

/// Consumes one backslash escape.
pub fn escape_code(s: &[char], pos: usize) -> (r: Result<usize, ParseErr>)
    requires
        pos <= s@.len(),
    ensures
        pos_matches(r, spec_escape_code(s@.skip(pos as int)), pos as int),
        r matches Ok(p) ==> pos < p <= s@.len(),
        r matches Err(e) ==> pos <= e.pos <= s@.len(),
{
    let ghost t = s@.skip(pos as int);
    proof {
        assert(t.len() > 0 ==> t[0] == s@[pos as int]);
        assert(t.len() > 1 ==> t[1] == s@[pos + 1]);
    }
    if s.len() - pos >= 2 && s[pos] == '\\' && is_escape_exec(s[pos + 1]) {
        Ok(pos + 2)
    } else {
        let e = ParseErr { pos, expected: None, contexts: vec![Ctx::EscapeCode] };
        proof {
            assert(e.contexts@ =~= seq![Ctx::EscapeCode]);
        }
        Err(e)
    }
}

/// The length of a string body: a maximal sequence of unescaped characters
/// and recognized escapes.
pub open spec fn body_len(t: Seq<char>) -> int
    decreases t.len(),
{
    if t.len() > 0 && is_nonescaped_char(t[0]) {
        1 + body_len(t.skip(1))
    } else if t.len() >= 2 && t[0] == '\\' && is_escape_char(t[1]) {
        2 + body_len(t.skip(2))
    } else {
        0
    }
}

pub proof fn lemma_body_len_bound(t: Seq<char>)
    ensures
        0 <= body_len(t) <= t.len(),
    decreases t.len(),
{
    if t.len() > 0 && is_nonescaped_char(t[0]) {
        lemma_body_len_bound(t.skip(1));
    } else if t.len() >= 2 && t[0] == '\\' && is_escape_char(t[1]) {
        lemma_body_len_bound(t.skip(2));
    }
}

fn body_scan(s: &[char], pos: usize) -> (r: usize)
    requires
        pos <= s@.len(),
    ensures
        r as int == pos + body_len(s@.skip(pos as int)),
        pos <= r <= s@.len(),
    decreases s@.len() - pos,
{
    let ghost t = s@.skip(pos as int);
    proof {
        assert(t.len() > 0 ==> t[0] == s@[pos as int]);
        assert(t.len() > 1 ==> t[1] == s@[pos + 1]);
    }
    if pos < s.len() && is_nonescaped_string_char(s[pos]) {
        proof {
            assert(t.skip(1) =~= s@.skip(pos + 1));
        }
        body_scan(s, pos + 1)
    } else if s.len() - pos >= 2 && s[pos] == '\\' && is_escape_exec(s[pos + 1]) {
        proof {
            assert(t.skip(2) =~= s@.skip(pos + 2));
        }
        body_scan(s, pos + 2)
    } else {
        pos
    }
}

/// A nonempty string body.
pub open spec fn spec_string_body(t: Seq<char>) -> Result<int, SErr> {
    if body_len(t) > 0 {
        Ok(body_len(t))
    } else {
        Err(SErr { pos: 0, expected: None, contexts: seq![Ctx::StrBody] })
    }
}

/// Consumes a maximal nonempty string body.
pub fn string_body(s: &[char], pos: usize) -> (r: Result<usize, ParseErr>)
    requires
        pos <= s@.len(),
    ensures
        pos_matches(r, spec_string_body(s@.skip(pos as int)), pos as int),
        r matches Ok(p) ==> pos < p <= s@.len(),
        r matches Err(e) ==> pos <= e.pos <= s@.len(),
{
    let p = body_scan(s, pos);
    if p == pos {
        let e = ParseErr { pos, expected: None, contexts: vec![Ctx::StrBody] };
        proof {
            assert(e.contexts@ =~= seq![Ctx::StrBody]);
        }
        Err(e)
    } else {
        Ok(p)
    }
}

/// A quoted string: a quote, a nonempty body, a closing quote. The value is
/// the raw body text, escapes kept as written.
pub open spec fn spec_string(t: Seq<char>) -> Result<(Seq<char>, int), SErr> {
    if t.len() == 0 || t[0] != '\'' {
        Err(SErr { pos: 0, expected: Some('\''), contexts: seq![Ctx::StrLit] })
    } else {
        let b = body_len(t.skip(1));
        if b == 0 {
            Err(
                SErr {
                    pos: 1,
                    expected: None,
                    contexts: seq![Ctx::StrBody, Ctx::StrInner, Ctx::StrLit],
                },
            )
        } else if 1 + b < t.len() && t[1 + b] == '\'' {
            Ok((t.subrange(1, 1 + b), 2 + b))
        } else {
            Err(SErr { pos: 1 + b, expected: Some('\''), contexts: seq![Ctx::StrLit] })
        }
    }
}

/// Parses a quoted string, returning its raw body.
pub fn string(s: &[char], pos: usize) -> (r: Result<(String, usize), ParseErr>)
    requires
        pos <= s@.len(),
    ensures
        step_matches(r, spec_string(s@.skip(pos as int)), pos as int),
        r matches Ok(x) ==> pos < x.1 <= s@.len(),
        r matches Err(e) ==> pos <= e.pos <= s@.len(),
{
    let ghost t = s@.skip(pos as int);
    proof {
        assert(t.len() > 0 ==> t[0] == s@[pos as int]);
    }
    if pos >= s.len() || s[pos] != '\'' {
        let e = ParseErr { pos, expected: Some('\''), contexts: vec![Ctx::StrLit] };
        proof {
            assert(e.contexts@ =~= seq![Ctx::StrLit]);
        }
        return Err(e);
    }
    proof {
        assert(s@.skip(pos + 1) =~= t.skip(1));
        lemma_body_len_bound(t.skip(1));
    }
    let body = match string_body(s, pos + 1) {
        Ok(p) => p,
        Err(_) => {
            let e = ParseErr {
                pos: pos + 1,
                expected: None,
                contexts: vec![Ctx::StrBody, Ctx::StrInner, Ctx::StrLit],
            };
            proof {
                assert(e.contexts@ =~= seq![Ctx::StrBody, Ctx::StrInner, Ctx::StrLit]);
            }
            return Err(e);
        },
    };
    proof {
        assert(t.len() > 1 + (body - (pos + 1)) ==> t[1 + (body - (pos + 1))] == s@[body as int]);
    }
    if body < s.len() && s[body] == '\'' {
        let mut v: Vec<char> = Vec::new();
        let mut m = pos + 1;
        while m < body
            invariant
                pos + 1 <= m <= body <= s@.len(),
                v@ =~= s@.subrange(pos + 1, m as int),
            decreases body - m,
        {
            v.push(s[m]);
            proof {
                assert(v@ =~= s@.subrange(pos + 1, m + 1));
            }
            m = m + 1;
        }
        let out = crate::diag::chars_to_string(&v);
        proof {
            assert(s@.subrange(pos + 1, body as int) =~= t.subrange(
                1,
                1 + (body - (pos + 1)),
            ));
        }
        Ok((out, body + 1))
    } else {
        let e = ParseErr { pos: body, expected: Some('\''), contexts: vec![Ctx::StrLit] };
        proof {
            assert(e.contexts@ =~= seq![Ctx::StrLit]);
        }
        Err(e)
    }
}

// ---------------------------------------------------------------------------
// Comments and identifiers
// ---------------------------------------------------------------------------
pub open spec fn nonnl_run(t: Seq<char>) -> int
    decreases t.len(),
{
    if t.len() > 0 && t[0] != '\n' && t[0] != '\r' {
        1 + nonnl_run(t.skip(1))
    } else {
        0
    }
}

/// A `%` comment running to the end of the line; the grammar asks for at
/// least one character after the percent sign.
pub open spec fn spec_comment(t: Seq<char>) -> Result<int, SErr> {
    if t.len() >= 2 && t[0] == '%' && t[1] != '\n' && t[1] != '\r' {
        Ok(1 + nonnl_run(t.skip(1)))
    } else {
        Err(SErr { pos: 0, expected: None, contexts: seq![Ctx::CommentTok] })
    }
}

/// Consumes a line comment; its text is discarded.
pub fn comment(s: &[char], pos: usize) -> (r: Result<usize, ParseErr>)
    requires
        pos <= s@.len(),
    ensures
        pos_matches(r, spec_comment(s@.skip(pos as int)), pos as int),
        r matches Ok(p) ==> pos < p <= s@.len(),
        r matches Err(e) ==> pos <= e.pos <= s@.len(),
{
    let ghost t = s@.skip(pos as int);
    proof {
        assert(t.len() > 0 ==> t[0] == s@[pos as int]);
        assert(t.len() > 1 ==> t[1] == s@[pos + 1]);
    }
    if s.len() - pos >= 2 && s[pos] == '%' && s[pos + 1] != '\n' && s[pos + 1] != '\r' {
        let ghost t1 = t.skip(1);
        let mut p = pos + 1;
        proof {
            assert(s@.skip(pos + 1) =~= t1);
            assert(t1.skip(0) =~= t1);
        }
        while p < s.len() && s[p] != '\n' && s[p] != '\r'
            invariant
                pos + 1 <= p <= s@.len(),
                t1 == s@.skip(pos + 1),
                nonnl_run(t1) == p - (pos + 1) + nonnl_run(t1.skip(p - (pos + 1))),
            decreases s@.len() - p,
        {
            proof {
                assert(t1.skip(p - (pos + 1))[0] == s@[p as int]);
                assert(t1.skip(p - (pos + 1)).skip(1) =~= t1.skip(p - (pos + 1) + 1));
            }
            p = p + 1;
        }
        proof {
            assert(p < s@.len() ==> t1.skip(p - (pos + 1))[0] == s@[p as int]);
            assert(nonnl_run(t1.skip(p - (pos + 1))) == 0);
        }
        Ok(p)
    } else {
        let e = ParseErr { pos, expected: None, contexts: vec![Ctx::CommentTok] };
        proof {
            assert(e.contexts@ =~= seq![Ctx::CommentTok]);
        }
        Err(e)
    }
}

pub open spec fn ident_run(t: Seq<char>) -> int
    decreases t.len(),
{
    if t.len() > 0 && (is_alnum_char(t[0]) || t[0] == '_') {
        1 + ident_run(t.skip(1))
    } else {
        0
    }
}

/// An identifier: a letter or underscore, then letters, digits and
/// underscores.
pub open spec fn spec_identifier(t: Seq<char>) -> Result<(Seq<char>, int), SErr> {
    if t.len() > 0 && (is_alpha_char(t[0]) || t[0] == '_') {
        Ok((t.take(ident_run(t)), ident_run(t)))
    } else {
        Err(SErr { pos: 0, expected: None, contexts: seq![Ctx::IdentifierTok] })
    }
}

/// Parses an identifier.
pub fn identifier(s: &[char], pos: usize) -> (r: Result<(String, usize), ParseErr>)
    requires
        pos <= s@.len(),
    ensures
        step_matches(r, spec_identifier(s@.skip(pos as int)), pos as int),
        r matches Ok(x) ==> pos < x.1 <= s@.len(),
        r matches Err(e) ==> pos <= e.pos <= s@.len(),
{
    let ghost t = s@.skip(pos as int);
    proof {
        assert(t.len() > 0 ==> t[0] == s@[pos as int]);
    }
    if pos >= s.len() || !(is_alpha_exec(s[pos]) || s[pos] == '_') {
        let e = ParseErr { pos, expected: None, contexts: vec![Ctx::IdentifierTok] };
        proof {
            assert(e.contexts@ =~= seq![Ctx::IdentifierTok]);
        }
        return Err(e);
    }
    let mut p = pos;
    let mut v: Vec<char> = Vec::new();
    proof {
        assert(t.skip(0) =~= t);
    }
    while p < s.len() && (is_alpha_exec(s[p]) || is_digit_exec(s[p]) || s[p] == '_')
        invariant
            pos <= p <= s@.len(),
            t == s@.skip(pos as int),
            ident_run(t) == p - pos + ident_run(t.skip(p - pos)),
            v@ =~= s@.subrange(pos as int, p as int),
        decreases s@.len() - p,
    {
        proof {
            assert(t.skip(p - pos)[0] == s@[p as int]);
            assert(t.skip(p - pos).skip(1) =~= t.skip(p - pos + 1));
        }
        v.push(s[p]);
        proof {
            assert(v@ =~= s@.subrange(pos as int, p + 1));
        }
        p = p + 1;
    }
    proof {
        assert(p < s@.len() ==> t.skip(p - pos)[0] == s@[p as int]);
        assert(ident_run(t.skip(p - pos)) == 0);
        assert(s@.subrange(pos as int, p as int) =~= t.take(p - pos));
    }
    let out = crate::diag::chars_to_string(&v);
    Ok((out, p))
}

// ---------------------------------------------------------------------------
// Whitespace-wrapped combinations
// ---------------------------------------------------------------------------
/// A single expected character surrounded by optional whitespace.
pub open spec fn spec_ws_char(t: Seq<char>, c: char) -> Result<int, SErr> {
    let a = spec_skip_ws(t);
    if a < t.len() && t[a] == c {
        let b = spec_skip_ws(t.skip(a + 1));
        Ok(a + 1 + b)
    } else {
        Err(SErr { pos: a, expected: Some(c), contexts: Seq::<Ctx>::empty() })
    }
}

/// Consumes one expected character and the whitespace around it.
pub fn ws_char(s: &[char], pos: usize, c: char) -> (r: Result<usize, ParseErr>)
    requires
        pos <= s@.len(),
    ensures
        pos_matches(r, spec_ws_char(s@.skip(pos as int), c), pos as int),
        r matches Ok(p) ==> pos < p <= s@.len(),
        r matches Err(e) ==> pos <= e.pos <= s@.len(),
{
    let ghost t = s@.skip(pos as int);
    let p1 = skip_ws(s, pos);
    proof {
        assert(p1 < s@.len() ==> t[p1 - pos] == s@[p1 as int]);
    }
    if p1 < s.len() && s[p1] == c {
        proof {
            assert(s@.skip(p1 + 1) =~= t.skip(p1 - pos + 1));
        }
        let p2 = skip_ws(s, p1 + 1);
        Ok(p2)
    } else {
        let e = ParseErr { pos: p1, expected: Some(c), contexts: Vec::new() };
        proof {
            assert(e.contexts@ =~= Seq::<Ctx>::empty());
        }
        Err(e)
    }
}

/// An unsigned integer surrounded by optional whitespace.
pub open spec fn spec_ws_uint(t: Seq<char>) -> Result<(usize, int), SErr> {
    let a = spec_skip_ws(t);
    match spec_uint(t.skip(a)) {
        Err(e) => Err(spec_shift(e, a)),
        Ok((v, c)) => {
            let b = spec_skip_ws(t.skip(a + c));
            Ok((v, a + c + b))
        },
    }
}

pub fn ws_uint(s: &[char], pos: usize) -> (r: Result<(usize, usize), ParseErr>)
    requires
        pos <= s@.len(),
    ensures
        step_matches(r, spec_ws_uint(s@.skip(pos as int)), pos as int),
        r matches Ok(x) ==> pos < x.1 <= s@.len(),
        r matches Err(e) ==> pos <= e.pos <= s@.len(),
{
    let ghost t = s@.skip(pos as int);
    let p1 = skip_ws(s, pos);
    proof {
        assert(s@.skip(p1 as int) =~= t.skip(p1 - pos));
    }
    match uint(s, p1) {
        Err(e) => Err(e),
        Ok((v, p2)) => {
            proof {
                assert(s@.skip(p2 as int) =~= t.skip(p2 - pos));
            }
            let p3 = skip_ws(s, p2);
            Ok((v, p3))
        },
    }
}

/// A floating-point literal surrounded by optional whitespace.
pub open spec fn spec_ws_float(t: Seq<char>) -> Result<(FloatV, int), SErr> {
    let a = spec_skip_ws(t);
    match spec_float(t.skip(a)) {
        Err(e) => Err(spec_shift(e, a)),
        Ok((v, c)) => {
            let b = spec_skip_ws(t.skip(a + c));
            Ok((v, a + c + b))
        },
    }
}

pub fn ws_float(s: &[char], pos: usize) -> (r: Result<(Float, usize), ParseErr>)
    requires
        pos <= s@.len(),
    ensures
        step_matches(r, spec_ws_float(s@.skip(pos as int)), pos as int),
        r matches Ok(x) ==> pos < x.1 <= s@.len(),
        r matches Err(e) ==> pos <= e.pos <= s@.len(),
{
    let ghost t = s@.skip(pos as int);
    let p1 = skip_ws(s, pos);
    proof {
        assert(s@.skip(p1 as int) =~= t.skip(p1 - pos));
    }
    match float(s, p1) {
        Err(e) => Err(e),
        Ok((v, p2)) => {
            proof {
                assert(s@.skip(p2 as int) =~= t.skip(p2 - pos));
            }
            let p3 = skip_ws(s, p2);
            Ok((v, p3))
        },
    }
}

/// A comment surrounded by optional whitespace.
pub open spec fn spec_ws_comment(t: Seq<char>) -> Result<int, SErr> {
    let a = spec_skip_ws(t);
    match spec_comment(t.skip(a)) {
        Err(e) => Err(spec_shift(e, a)),
        Ok(c) => {
            let b = spec_skip_ws(t.skip(a + c));
            Ok(a + c + b)
        },
    }
}

pub fn ws_comment(s: &[char], pos: usize) -> (r: Result<usize, ParseErr>)
    requires
        pos <= s@.len(),
    ensures
        pos_matches(r, spec_ws_comment(s@.skip(pos as int)), pos as int),
        r matches Ok(p) ==> pos < p <= s@.len(),
        r matches Err(e) ==> pos <= e.pos <= s@.len(),
{
    let ghost t = s@.skip(pos as int);
    let p1 = skip_ws(s, pos);
    proof {
        assert(s@.skip(p1 as int) =~= t.skip(p1 - pos));
    }
    match comment(s, p1) {
        Err(e) => Err(e),
        Ok(p2) => {
            proof {
                assert(s@.skip(p2 as int) =~= t.skip(p2 - pos));
            }
            let p3 = skip_ws(s, p2);
            Ok(p3)
        },
    }
}

/// Zero or more whitespace-wrapped comments.
pub open spec fn spec_comments0(t: Seq<char>) -> int
    decreases t.len(),
{
    match spec_ws_comment(t) {
        Ok(c) => if 0 < c <= t.len() {
            c + spec_comments0(t.skip(c))
        } else {
            0
        },
        Err(_) => 0,
    }
}

/// Consumes any run of comments between rows; their text is discarded.
pub fn comments0(s: &[char], pos: usize) -> (r: usize)
    requires
        pos <= s@.len(),
    ensures
        r as int == pos + spec_comments0(s@.skip(pos as int)),
        pos <= r <= s@.len(),
    decreases s@.len() - pos,
{
    let ghost t = s@.skip(pos as int);
    match ws_comment(s, pos) {
        Ok(p2) => {
            proof {
                assert(s@.skip(p2 as int) =~= t.skip(p2 - pos));
            }
            comments0(s, p2)
        },
        Err(_) => pos,
    }
}

/// At most one whitespace-wrapped comment.
pub open spec fn spec_opt_ws_comment(t: Seq<char>) -> int {
    match spec_ws_comment(t) {
        Ok(c) => c,
        Err(_) => 0,
    }
}

pub fn opt_ws_comment(s: &[char], pos: usize) -> (r: usize)
    requires
        pos <= s@.len(),
    ensures
        r as int == pos + spec_opt_ws_comment(s@.skip(pos as int)),
        pos <= r <= s@.len(),
{
    match ws_comment(s, pos) {
        Ok(p2) => p2,
        Err(_) => pos,
    }
}

/// A row terminator: a semicolon in optional whitespace, then any trailing
/// comments.
pub open spec fn spec_row_term(t: Seq<char>) -> Result<int, SErr> {
    match spec_ws_char(t, ';') {
        Err(e) => Err(e),
        Ok(c) => Ok(c + spec_comments0(t.skip(c))),
    }
}

pub fn row_term(s: &[char], pos: usize) -> (r: Result<usize, ParseErr>)
    requires
        pos <= s@.len(),
    ensures
        pos_matches(r, spec_row_term(s@.skip(pos as int)), pos as int),
        r matches Ok(p) ==> pos < p <= s@.len(),
        r matches Err(e) ==> pos <= e.pos <= s@.len(),
{
    let ghost t = s@.skip(pos as int);
    match ws_char(s, pos, ';') {
        Err(e) => Err(e),
        Ok(p2) => {
            proof {
                assert(s@.skip(p2 as int) =~= t.skip(p2 - pos));
            }
            let p3 = comments0(s, p2);
            Ok(p3)
        },
    }
}

} // verus!
