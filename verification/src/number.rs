//! Exact decimal representation of the numeric literals of the case grammar.
//!
//! A parsed literal is kept as a sign, a sequence of significant decimal
//! digits, and a power-of-ten exponent, in a canonical form: no leading or
//! trailing zero digits, and zero itself is the empty digit sequence with a
//! positive sign and exponent zero. Two literals denote the same number
//! exactly when their canonical forms are equal, so `"-360"`, `"-360.0"` and
//! `"-36e1"` all map to one value. The special tokens `Inf` and `-Inf` map to
//! the two infinite values.

use vstd::prelude::*;

verus! {

/// Exponents are clamped to this magnitude. Every magnitude beyond roughly
/// ten to the 308th denotes an overflowing value anyway, so the clamp keeps
/// the arithmetic bounded without telling any two representable numbers apart.
pub const EXP_CAP: i64 = 1_000_000_000_000;

/// A numeric value of the case grammar: an infinity or a finite decimal
/// `(-1)^neg * digits * 10^exp`, where `digits` is read as an integer.
#[derive(Debug, Clone, PartialEq)]
pub enum Float {
    Inf { neg: bool },
    Num { neg: bool, digits: Vec<u8>, exp: i64 },
}

/// The mathematical shadow of `Float`.
pub ghost enum FloatV {
    Inf { neg: bool },
    Num { neg: bool, digits: Seq<u8>, exp: int },
}

impl View for Float {
    type V = FloatV;

    open spec fn view(&self) -> FloatV {
        match *self {
            Float::Inf { neg } => FloatV::Inf { neg },
            Float::Num { neg, ref digits, exp } => FloatV::Num {
                neg,
                digits: digits@,
                exp: exp as int,
            },
        }
    }
}

impl DeepView for Float {
    type V = FloatV;

    open spec fn deep_view(&self) -> FloatV {
        self.view()
    }
}

pub open spec fn all_digits(ds: Seq<u8>) -> bool {
    forall|i: int| 0 <= i < ds.len() ==> ds[i] < 10
}

pub open spec fn clamp_exp(e: int) -> int {
    if e > EXP_CAP as int {
        EXP_CAP as int
    } else if e < -(EXP_CAP as int) {
        -(EXP_CAP as int)
    } else {
        e
    }
}

pub open spec fn strip_leading(ds: Seq<u8>) -> Seq<u8>
    decreases ds.len(),
{
    if ds.len() > 0 && ds[0] == 0 {
        strip_leading(ds.skip(1))
    } else {
        ds
    }
}

pub open spec fn strip_trailing(ds: Seq<u8>) -> Seq<u8>
    decreases ds.len(),
{
    if ds.len() > 0 && ds.last() == 0 {
        strip_trailing(ds.drop_last())
    } else {
        ds
    }
}

/// The canonical value denoted by the literal parts `(-1)^neg * ds * 10^e`.
pub open spec fn spec_canonical(neg: bool, ds: Seq<u8>, e: int) -> FloatV {
    let a = strip_leading(ds);
    let b = strip_trailing(a);
    if b.len() == 0 {
        FloatV::Num { neg: false, digits: Seq::empty(), exp: 0 }
    } else {
        FloatV::Num { neg, digits: b, exp: clamp_exp(e + a.len() - b.len()) }
    }
}

impl FloatV {
    /// Canonical well-formedness: digits are decimal, begin and end nonzero,
    /// zero is the unsigned empty sequence, and the exponent is clamped.
    pub open spec fn wf(self) -> bool {
        match self {
            FloatV::Inf { .. } => true,
            FloatV::Num { neg, digits, exp } => all_digits(digits) && (digits.len() == 0 ==> !neg
                && exp == 0) && (digits.len() > 0 ==> digits[0] != 0 && digits.last() != 0) && -(
            EXP_CAP as int) <= exp <= EXP_CAP as int,
        }
    }
}

impl Float {
    pub open spec fn wf(&self) -> bool {
        self@.wf()
    }

    /// Builds the canonical finite value `(-1)^neg * digits * 10^exp`.
    pub fn decimal(neg: bool, digits: Vec<u8>, exp: i64) -> (r: Float)
        requires
            all_digits(digits@),
            -EXP_CAP <= exp <= EXP_CAP,
        ensures
            r@ == spec_canonical(neg, digits@, exp as int),
            r.wf(),
    {
        let ghost ds = digits@;
        let mut i: usize = 0;
        while i < digits.len() && digits[i] == 0
            invariant
                0 <= i <= ds.len(),
                digits@ == ds,
                forall|m: int| 0 <= m < i ==> ds[m] == 0,
            decreases ds.len() - i,
        {
            i = i + 1;
        }
        let mut j: usize = digits.len();
        while j > i && digits[j - 1] == 0
            invariant
                i <= j <= ds.len(),
                digits@ == ds,
                forall|m: int| j <= m < ds.len() ==> ds[m] == 0,
            decreases j,
        {
            j = j - 1;
        }
        proof {
            lemma_strip_leading_at(ds, i as int);
            lemma_strip_trailing_at(ds.skip(i as int), j - i);
            assert(ds.skip(i as int).take(j - i) =~= ds.subrange(i as int, j as int));
        }
        if i == j {
            proof {
                assert(strip_trailing(strip_leading(ds)).len() == 0);
            }
            Float::Num { neg: false, digits: Vec::new(), exp: 0 }
        } else {
            let mut out: Vec<u8> = Vec::new();
            let mut m: usize = i;
            while m < j
                invariant
                    i <= m <= j <= ds.len(),
                    digits@ == ds,
                    out@ =~= ds.subrange(i as int, m as int),
                decreases j - m,
            {
                out.push(digits[m]);
                m = m + 1;
            }
            let trail: usize = digits.len() - j;
            let e2: i64 = clamp_exp_exec(exp as i128 + trail as i128);
            proof {
                assert(out@ =~= strip_trailing(strip_leading(ds)));
                assert(strip_leading(ds).len() - strip_trailing(strip_leading(ds)).len() == trail);
            }
            Float::Num { neg, digits: out, exp: e2 }
        }
    }
}

pub(crate) fn clamp_exp_exec(e: i128) -> (r: i64)
    ensures
        r as int == clamp_exp(e as int),
{
    if e > EXP_CAP as i128 {
        EXP_CAP
    } else if e < -(EXP_CAP as i128) {
        -EXP_CAP
    } else {
        e as i64
    }
}

/// If everything before `i` is zero and `ds[i]` (when present) is not,
/// stripping the leading zeros of `ds` leaves exactly the suffix from `i`.
proof fn lemma_strip_leading_at(ds: Seq<u8>, i: int)
    requires
        0 <= i <= ds.len(),
        forall|m: int| 0 <= m < i ==> ds[m] == 0,
        i < ds.len() ==> ds[i] != 0,
    ensures
        strip_leading(ds) == ds.skip(i),
    decreases i,
{
    if i == 0 {
        assert(ds.skip(0) =~= ds);
    } else {
        lemma_strip_leading_at(ds.skip(1), i - 1);
        assert(ds.skip(1).skip(i - 1) =~= ds.skip(i));
    }
}

/// If everything from `j` on is zero and `ds[j - 1]` (when present) is not,
/// stripping the trailing zeros of `ds` leaves exactly the prefix up to `j`.
proof fn lemma_strip_trailing_at(ds: Seq<u8>, j: int)
    requires
        0 <= j <= ds.len(),
        forall|m: int| j <= m < ds.len() ==> ds[m] == 0,
        j > 0 ==> ds[j - 1] != 0,
    ensures
        strip_trailing(ds) == ds.take(j),
    decreases ds.len(),
{
    if j == ds.len() {
        if ds.len() > 0 {
            assert(ds.last() == ds[j - 1]);
        }
        assert(ds.take(j) =~= ds);
    } else {
        assert(ds.last() == 0);
        lemma_strip_trailing_at(ds.drop_last(), j);
        assert(ds.drop_last().take(j) =~= ds.take(j));
    }
}

} // verus!
