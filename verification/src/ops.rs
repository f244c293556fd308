//! The operator functions: binary arithmetic, comparisons, and the
//! unary percent and negation, all spelled `F.NAME(...)` in formulas.
//!
//! Equality is exact while the not-equal operator compares with an
//! absolute epsilon of `1e-7`; the asymmetry is deliberate and kept.
//! Ordering operators accept numbers, strings, times, instants and
//! dates, but not booleans.

use crate::eval::arg_spec;
use crate::eval::all_det;
use crate::eval::eval_arg;
use crate::eval::num_or_null;
use crate::eval::num_or_null_v;
use crate::eval::ok_wf;
use crate::eval::perr;
use crate::eval::perr_v;
use crate::eval::rv;
use crate::eval::Fetcher;
use crate::expr::wf_exprv;
use crate::expr::Expr;
use crate::expr::ExprV;
use crate::node::children_view;
use crate::node::lemma_children_view;
use crate::node::wf_node;
use crate::node::Node;
use crate::node::NodeV;
use crate::num::rat_add_spec;
use crate::num::rat_div_spec;
use crate::num::rat_eq_spec;
use crate::num::rat_lt_spec;
use crate::num::rat_mul_spec;
use crate::num::rat_ne_eps_spec;
use crate::num::rat_rem_spec;
use crate::num::rat_sub_spec;
use crate::num::Num;
use crate::rules::Rule;
use crate::Error;
use crate::ErrV;
use vstd::prelude::*;
use vstd::string::StrSliceExecFns;

verus! {

broadcast use vstd::std_specs::vec::axiom_vec_decreases_to_view;

pub open spec fn is_op_rule(r: Rule) -> bool {
    match r {
        Rule::add | Rule::sub | Rule::mul | Rule::div | Rule::pow | Rule::eq | Rule::ne | Rule::gt
            | Rule::lt | Rule::gte | Rule::lte | Rule::percent | Rule::negate => true,
        _ => false,
    }
}

/// Exec twin of `is_op_rule`.
pub fn is_op_rule_x(r: Rule) -> (b: bool)
    ensures
        b == is_op_rule(r),
{
    match r {
        Rule::add | Rule::sub | Rule::mul | Rule::div | Rule::pow | Rule::eq | Rule::ne | Rule::gt
            | Rule::lt | Rule::gte | Rule::lte | Rule::percent | Rule::negate => true,
        _ => false,
    }
}

/// Integer power of a rational by repeated squaring, exact.
pub open spec fn pow_mag_spec(an: int, ad: int, m: int) -> Option<(int, int)>
    decreases m,
{
    if m <= 0 {
        Some((1, 1))
    } else {
        match pow_mag_spec(an, ad, m / 2) {
            None => None,
            Some(h) => match rat_mul_spec(h.0, h.1, h.0, h.1) {
                None => None,
                Some(s) => if m % 2 == 1 {
                    rat_mul_spec(s.0, s.1, an, ad)
                } else {
                    Some(s)
                },
            },
        }
    }
}

pub fn pow_mag(a: &Num, m: u64) -> (r: Option<Num>)
    requires
        a.wf(),
    ensures
        match r {
            Some(q) => q.wf() && pow_mag_spec(a.ni(), a.di(), m as int) == Some((q.ni(), q.di())),
            None => pow_mag_spec(a.ni(), a.di(), m as int) is None,
        },
    decreases m,
{
    if m == 0 {
        Some(Num::int_c(1))
    } else {
        match pow_mag(a, m / 2) {
            None => None,
            Some(h) => match h.mul_q(&h) {
                None => None,
                Some(s) => if m % 2 == 1 {
                    s.mul_q(a)
                } else {
                    Some(s)
                },
            },
        }
    }
}

/// Full power: exact for whole exponents, `exp(b ln a)` otherwise;
/// domain violations have no result.
#[verifier::opaque]
pub open spec fn pow_full_spec(an: int, ad: int, bn: int, bd: int) -> Option<(int, int)> {
    if bd == 1 {
        if bn >= 0 {
            pow_mag_spec(an, ad, bn)
        } else {
            match pow_mag_spec(an, ad, -bn) {
                None => None,
                Some(p) => if p.0 == 0 {
                    None
                } else {
                    rat_div_spec(1, 1, p.0, p.1)
                },
            }
        }
    } else if an == 0 {
        if bn > 0 {
            Some((0, 1))
        } else {
            None
        }
    } else if an < 0 {
        None
    } else {
        match crate::approx::ln_fix_spec(crate::approx::to_fix_spec(an, ad)) {
            None => None,
            Some(la) => match crate::approx::fmul_spec(crate::approx::to_fix_spec(bn, bd), la) {
                None => None,
                Some(z) => match crate::approx::exp_fix_spec(z) {
                    None => None,
                    Some(w) => crate::approx::from_fix_spec(w),
                },
            },
        }
    }
}

pub fn pow_full(a: &Num, b: &Num) -> (r: Option<Num>)
    requires
        a.wf(),
        b.wf(),
    ensures
        match r {
            Some(q) => q.wf() && pow_full_spec(a.ni(), a.di(), b.ni(), b.di()) == Some(
                (q.ni(), q.di()),
            ),
            None => pow_full_spec(a.ni(), a.di(), b.ni(), b.di()) is None,
        },
{
    proof {
        reveal(pow_full_spec);
    }
    let (bn, bd) = b.parts();
    let (an, ad) = a.parts();
    if bd == 1 {
        if bn >= 0 {
            pow_mag(a, bn as u64)
        } else {
            match pow_mag(a, (-(bn as i128)) as u64) {
                None => None,
                Some(p) => {
                    let (pn, pd) = p.parts();
                    if pn == 0 {
                        None
                    } else {
                        Num::int_c(1).div_q(&p)
                    }
                },
            }
        }
    } else if an == 0 {
        if bn > 0 {
            Some(Num::int_c(0))
        } else {
            None
        }
    } else if an < 0 {
        None
    } else {
        match crate::approx::ln_fix(crate::approx::to_fix(a)) {
            None => None,
            Some(la) => match crate::approx::fmul(crate::approx::to_fix(b), la) {
                None => None,
                Some(z) => match crate::approx::exp_fix(z) {
                    None => None,
                    Some(w) => crate::approx::from_fix(w),
                },
            },
        }
    }
}

/// Binary arithmetic over two already-evaluated operands: both must
/// be numbers; division by zero is the `Null` value; a result outside
/// the numeric range is `Null` as well.
#[verifier::opaque]
pub open spec fn arith2_spec(r: Rule, a: ExprV, b: ExprV) -> Result<ExprV, ErrV> {
    match (a, b) {
        (ExprV::Number { n: an, d: ad }, ExprV::Number { n: bn, d: bd }) => {
            if r == Rule::add {
                Ok(num_or_null_v(rat_add_spec(an, ad, bn, bd)))
            } else if r == Rule::sub {
                Ok(num_or_null_v(rat_sub_spec(an, ad, bn, bd)))
            } else if r == Rule::mul {
                Ok(num_or_null_v(rat_mul_spec(an, ad, bn, bd)))
            } else if r == Rule::div {
                if bn == 0 {
                    Ok(ExprV::Null)
                } else {
                    Ok(num_or_null_v(rat_div_spec(an, ad, bn, bd)))
                }
            } else if r == Rule::mod_ {
                if bn == 0 {
                    Ok(ExprV::Null)
                } else {
                    Ok(num_or_null_v(rat_rem_spec(an, ad, bn, bd)))
                }
            } else {
                Ok(num_or_null_v(pow_full_spec(an, ad, bn, bd)))
            }
        },
        _ => Err(perr_v(r)),
    }
}

/// Exec twin of `arith2_spec`.
pub fn arith2(r: Rule, a: Expr, b: Expr) -> (res: Result<Expr, Error>)
    requires
        wf_exprv(a@),
        wf_exprv(b@),
        r == Rule::add || r == Rule::sub || r == Rule::mul || r == Rule::div || r == Rule::mod_
            || r == Rule::pow || r == Rule::power,
    ensures
        rv(res) == arith2_spec(r, a@, b@),
        ok_wf(res),
{
    proof {
        reveal(arith2_spec);
    }
    match (a, b) {
        (Expr::Number(x), Expr::Number(y)) => {
            match r {
                Rule::add => Ok(num_or_null(x.add_q(&y))),
                Rule::sub => Ok(num_or_null(x.sub_q(&y))),
                Rule::mul => Ok(num_or_null(x.mul_q(&y))),
                Rule::div => {
                    let (yn, _yd) = y.parts();
                    if yn == 0 {
                        Ok(Expr::Null)
                    } else {
                        Ok(num_or_null(x.div_q(&y)))
                    }
                },
                Rule::mod_ => {
                    let (yn, _yd) = y.parts();
                    if yn == 0 {
                        Ok(Expr::Null)
                    } else {
                        Ok(num_or_null(x.rem_q(&y)))
                    }
                },
                _ => Ok(num_or_null(pow_full(&x, &y))),
            }
        },
        (aa, bb) => Err(perr(r)),
    }
}

/// Lexicographic order on character sequences, the order `<` has on
/// strings.
pub open spec fn seq_char_lt(x: Seq<char>, y: Seq<char>) -> bool
    decreases x.len(),
{
    if y.len() == 0 {
        false
    } else if x.len() == 0 {
        true
    } else if (x[0] as u32) < (y[0] as u32) {
        true
    } else if (x[0] as u32) > (y[0] as u32) {
        false
    } else {
        seq_char_lt(x.drop_first(), y.drop_first())
    }
}

/// Exec twin of `seq_char_lt` on character vectors.
pub fn chars_lt(x: &Vec<char>, y: &Vec<char>) -> (r: bool)
    ensures
        r == seq_char_lt(x@, y@),
{
    let mut i: usize = 0;
    proof {
        assert(x@.skip(0) =~= x@);
        assert(y@.skip(0) =~= y@);
    }
    loop
        invariant
            0 <= i <= x@.len(),
            i <= y@.len(),
            seq_char_lt(x@, y@) == seq_char_lt(x@.skip(i as int), y@.skip(i as int)),
        decreases x@.len() - i,
    {
        proof {
            if i < y@.len() {
                assert(y@.skip(i as int)[0] == y@[i as int]);
                assert(y@.skip(i as int).drop_first() =~= y@.skip(i + 1));
            }
            if i < x@.len() {
                assert(x@.skip(i as int)[0] == x@[i as int]);
                assert(x@.skip(i as int).drop_first() =~= x@.skip(i + 1));
            }
            assert(x@.skip(i as int).len() == x@.len() - i);
            assert(y@.skip(i as int).len() == y@.len() - i);
        }
        if i >= y.len() {
            return false;
        }
        if i >= x.len() {
            return true;
        }
        let cx = x[i] as u32;
        let cy = y[i] as u32;
        if cx < cy {
            return true;
        }
        if cx > cy {
            return false;
        }
        i += 1;
    }
}

pub open spec fn date_lt_v(y1: int, m1: int, d1: int, y2: int, m2: int, d2: int) -> bool {
    y1 < y2 || (y1 == y2 && (m1 < m2 || (m1 == m2 && d1 < d2)))
}

pub open spec fn time_lt_v(h1: int, m1: int, s1: int, h2: int, m2: int, s2: int) -> bool {
    h1 < h2 || (h1 == h2 && (m1 < m2 || (m1 == m2 && s1 < s2)))
}

/// Equality of two operands of the same variant; comparing across
/// variants is a `Parser` error, never a coercion.
#[verifier::opaque]
pub open spec fn eq2_spec(a: ExprV, b: ExprV, r: Rule) -> Result<bool, ErrV> {
    match (a, b) {
        (ExprV::Number { n: an, d: ad }, ExprV::Number { n: bn, d: bd }) => Ok(
            rat_eq_spec(an, ad, bn, bd),
        ),
        (ExprV::Str(x), ExprV::Str(y)) => Ok(x == y),
        (ExprV::Time { h: h1, mi: m1, s: s1 }, ExprV::Time { h: h2, mi: m2, s: s2 }) => Ok(
            h1 == h2 && m1 == m2 && s1 == s2,
        ),
        (
            ExprV::Datetime { y: y1, m: mo1, d: d1, h: h1, mi: m1, s: s1 },
            ExprV::Datetime { y: y2, m: mo2, d: d2, h: h2, mi: m2, s: s2 },
        ) => Ok(y1 == y2 && mo1 == mo2 && d1 == d2 && h1 == h2 && m1 == m2 && s1 == s2),
        (ExprV::Date { y: y1, m: m1, d: d1 }, ExprV::Date { y: y2, m: m2, d: d2 }) => Ok(
            y1 == y2 && m1 == m2 && d1 == d2,
        ),
        (ExprV::Bool(x), ExprV::Bool(y)) => Ok(x == y),
        _ => Err(perr_v(r)),
    }
}

/// Strict order of two operands of the same variant; booleans have no
/// order, and a variant mismatch is a `Parser` error.
#[verifier::opaque]
pub open spec fn lt2_spec(a: ExprV, b: ExprV, r: Rule) -> Result<bool, ErrV> {
    match (a, b) {
        (ExprV::Number { n: an, d: ad }, ExprV::Number { n: bn, d: bd }) => Ok(
            rat_lt_spec(an, ad, bn, bd),
        ),
        (ExprV::Str(x), ExprV::Str(y)) => Ok(seq_char_lt(x, y)),
        (ExprV::Time { h: h1, mi: m1, s: s1 }, ExprV::Time { h: h2, mi: m2, s: s2 }) => Ok(
            time_lt_v(h1, m1, s1, h2, m2, s2),
        ),
        (
            ExprV::Datetime { y: y1, m: mo1, d: d1, h: h1, mi: m1, s: s1 },
            ExprV::Datetime { y: y2, m: mo2, d: d2, h: h2, mi: m2, s: s2 },
        ) => Ok(
            date_lt_v(y1, mo1, d1, y2, mo2, d2) || (y1 == y2 && mo1 == mo2 && d1 == d2 && time_lt_v(
                h1,
                m1,
                s1,
                h2,
                m2,
                s2,
            )),
        ),
        (ExprV::Date { y: y1, m: m1, d: d1 }, ExprV::Date { y: y2, m: m2, d: d2 }) => Ok(
            date_lt_v(y1, m1, d1, y2, m2, d2),
        ),
        _ => Err(perr_v(r)),
    }
}

/// The comparison operators over two evaluated operands.
#[verifier::opaque]
pub open spec fn cmp2_spec(r: Rule, a: ExprV, b: ExprV) -> Result<ExprV, ErrV> {
    if r == Rule::eq {
        match eq2_spec(a, b, r) {
            Ok(v) => Ok(ExprV::Bool(v)),
            Err(e) => Err(e),
        }
    } else if r == Rule::ne {
        match (a, b) {
            (ExprV::Number { n: an, d: ad }, ExprV::Number { n: bn, d: bd }) => Ok(
                ExprV::Bool(rat_ne_eps_spec(an, ad, bn, bd)),
            ),
            _ => match eq2_spec(a, b, r) {
                Ok(v) => Ok(ExprV::Bool(!v)),
                Err(e) => Err(e),
            },
        }
    } else if r == Rule::gt {
        match lt2_spec(b, a, r) {
            Ok(v) => Ok(ExprV::Bool(v)),
            Err(e) => Err(e),
        }
    } else if r == Rule::lt {
        match lt2_spec(a, b, r) {
            Ok(v) => Ok(ExprV::Bool(v)),
            Err(e) => Err(e),
        }
    } else if r == Rule::gte {
        match lt2_spec(a, b, r) {
            Ok(v) => Ok(ExprV::Bool(!v)),
            Err(e) => Err(e),
        }
    } else {
        match lt2_spec(b, a, r) {
            Ok(v) => Ok(ExprV::Bool(!v)),
            Err(e) => Err(e),
        }
    }
}

/// Character-for-character string equality.
pub fn str_eq_x(a: &str, b: &str) -> (r: bool)
    ensures
        r == (a@ == b@),
{
    let n = a.unicode_len();
    if b.unicode_len() != n {
        proof {
            assert(a@.len() != b@.len());
        }
        return false;
    }
    let mut i: usize = 0;
    while i < n
        invariant
            0 <= i <= n,
            n == a@.len(),
            n == b@.len(),
            forall|j: int| 0 <= j < i ==> a@[j] == b@[j],
        decreases n - i,
    {
        if a.get_char(i) != b.get_char(i) {
            proof {
                assert(a@[i as int] != b@[i as int]);
            }
            return false;
        }
        i += 1;
    }
    proof {
        assert(a@ =~= b@);
    }
    true
}

/// Exec twin of `eq2_spec`.
fn eq2(a: &Expr, b: &Expr, r: Rule) -> (res: Result<bool, Error>)
    requires
        wf_exprv(a@),
        wf_exprv(b@),
    ensures
        match res {
            Ok(v) => eq2_spec(a@, b@, r) == Ok::<bool, ErrV>(v),
            Err(e) => eq2_spec(a@, b@, r) == Err::<bool, ErrV>(e@),
        },
{
    proof {
        reveal(eq2_spec);
    }
    match (a, b) {
        (Expr::Number(x), Expr::Number(y)) => Ok(x.eq_q(y)),
        (Expr::String(x), Expr::String(y)) => Ok(str_eq_x(x.as_str(), y.as_str())),
        (Expr::Time(x), Expr::Time(y)) => {
            let (h1, m1, s1) = x.hms();
            let (h2, m2, s2) = y.hms();
            Ok(h1 == h2 && m1 == m2 && s1 == s2)
        },
        (Expr::Datetime(x), Expr::Datetime(y)) => {
            let (y1, mo1, d1) = x.date.ymd();
            let (y2, mo2, d2) = y.date.ymd();
            let (h1, m1, s1) = x.time.hms();
            let (h2, m2, s2) = y.time.hms();
            Ok(y1 == y2 && mo1 == mo2 && d1 == d2 && h1 == h2 && m1 == m2 && s1 == s2)
        },
        (Expr::Date(x), Expr::Date(y)) => {
            let (y1, m1, d1) = x.ymd();
            let (y2, m2, d2) = y.ymd();
            Ok(y1 == y2 && m1 == m2 && d1 == d2)
        },
        (Expr::Bool(x), Expr::Bool(y)) => Ok(*x == *y),
        _ => Err(perr(r)),
    }
}

/// Exec twin of `lt2_spec`.
fn lt2(a: &Expr, b: &Expr, r: Rule) -> (res: Result<bool, Error>)
    requires
        wf_exprv(a@),
        wf_exprv(b@),
    ensures
        match res {
            Ok(v) => lt2_spec(a@, b@, r) == Ok::<bool, ErrV>(v),
            Err(e) => lt2_spec(a@, b@, r) == Err::<bool, ErrV>(e@),
        },
{
    proof {
        reveal(lt2_spec);
    }
    match (a, b) {
        (Expr::Number(x), Expr::Number(y)) => Ok(x.lt_q(y)),
        (Expr::String(x), Expr::String(y)) => {
            let xv = crate::strings::string_to_chars(x.as_str());
            let yv = crate::strings::string_to_chars(y.as_str());
            Ok(chars_lt(&xv, &yv))
        },
        (Expr::Time(x), Expr::Time(y)) => {
            let (h1, m1, s1) = x.hms();
            let (h2, m2, s2) = y.hms();
            Ok(h1 < h2 || (h1 == h2 && (m1 < m2 || (m1 == m2 && s1 < s2))))
        },
        (Expr::Datetime(x), Expr::Datetime(y)) => {
            let (y1, mo1, d1) = x.date.ymd();
            let (y2, mo2, d2) = y.date.ymd();
            let (h1, m1, s1) = x.time.hms();
            let (h2, m2, s2) = y.time.hms();
            let dlt = y1 < y2 || (y1 == y2 && (mo1 < mo2 || (mo1 == mo2 && d1 < d2)));
            let deq = y1 == y2 && mo1 == mo2 && d1 == d2;
            let tlt = h1 < h2 || (h1 == h2 && (m1 < m2 || (m1 == m2 && s1 < s2)));
            Ok(dlt || (deq && tlt))
        },
        (Expr::Date(x), Expr::Date(y)) => {
            let (y1, m1, d1) = x.ymd();
            let (y2, m2, d2) = y.ymd();
            Ok(y1 < y2 || (y1 == y2 && (m1 < m2 || (m1 == m2 && d1 < d2))))
        },
        _ => Err(perr(r)),
    }
}

/// Exec twin of `cmp2_spec`.
pub fn cmp2(r: Rule, a: Expr, b: Expr) -> (res: Result<Expr, Error>)
    requires
        wf_exprv(a@),
        wf_exprv(b@),
        r == Rule::eq || r == Rule::ne || r == Rule::gt || r == Rule::lt || r == Rule::gte || r
            == Rule::lte,
    ensures
        rv(res) == cmp2_spec(r, a@, b@),
        ok_wf(res),
{
    proof {
        reveal(cmp2_spec);
        reveal(eq2_spec);
        reveal(lt2_spec);
    }
    match r {
        Rule::eq => match eq2(&a, &b, r) {
            Ok(v) => Ok(Expr::Bool(v)),
            Err(e) => Err(e),
        },
        Rule::ne => match (&a, &b) {
            (Expr::Number(x), Expr::Number(y)) => Ok(Expr::Bool(x.ne_eps_q(y))),
            _ => match eq2(&a, &b, r) {
                Ok(v) => Ok(Expr::Bool(!v)),
                Err(e) => Err(e),
            },
        },
        Rule::gt => match lt2(&b, &a, r) {
            Ok(v) => Ok(Expr::Bool(v)),
            Err(e) => Err(e),
        },
        Rule::lt => match lt2(&a, &b, r) {
            Ok(v) => Ok(Expr::Bool(v)),
            Err(e) => Err(e),
        },
        Rule::gte => match lt2(&a, &b, r) {
            Ok(v) => Ok(Expr::Bool(!v)),
            Err(e) => Err(e),
        },
        _ => match lt2(&b, &a, r) {
            Ok(v) => Ok(Expr::Bool(!v)),
            Err(e) => Err(e),
        },
    }
}

/// The operator category of `eval_spec`.
#[verifier::opaque]
pub open spec fn eval_op_spec(n: NodeV) -> Result<ExprV, ErrV>
    decreases n, 1int, 0int,
{
    let r = n.rule;
    if r == Rule::percent {
        match arg_spec(n.children, 0, r) {
            Err(e) => Err(e),
            Ok(v) => match v {
                ExprV::Number { n: an, d: ad } => Ok(num_or_null_v(rat_div_spec(an, ad, 100, 1))),
                _ => Err(perr_v(r)),
            },
        }
    } else if r == Rule::negate {
        match arg_spec(n.children, 0, r) {
            Err(e) => Err(e),
            Ok(v) => match v {
                ExprV::Number { n: an, d: ad } => Ok(ExprV::Number { n: -an, d: ad }),
                _ => Err(perr_v(r)),
            },
        }
    } else {
        match arg_spec(n.children, 0, r) {
            Err(e) => Err(e),
            Ok(a) => match arg_spec(n.children, 1, r) {
                Err(e) => Err(e),
                Ok(b) => if r == Rule::add || r == Rule::sub || r == Rule::mul || r == Rule::div
                    || r == Rule::pow {
                    arith2_spec(r, a, b)
                } else {
                    cmp2_spec(r, a, b)
                },
            },
        }
    }
}

/// Exec twin of `eval_op_spec`.
pub fn eval_op<F: Fetcher>(n: &Node, f: &mut F) -> (res: Result<Expr, Error>)
    requires
        wf_node(n@),
        is_op_rule(n@.rule),
    ensures
        crate::eval::is_det(n@) ==> rv(res) == eval_op_spec(n@),
        ok_wf(res),
    decreases n, 1int, 0int,
{
    proof {
        reveal(eval_op_spec);
        reveal(arith2_spec);
        reveal(cmp2_spec);
    }
    proof {
        lemma_children_view(n.children@);
        assert(n@.children == children_view(n.children@));
        crate::eval::lemma_node_kids(n@);
    }
    let r = n.rule;
    match r {
        Rule::percent => {
            match eval_arg(&n.children, 0, r, f) {
                Err(e) => Err(e),
                Ok(v) => match v {
                    Expr::Number(x) => Ok(num_or_null(x.div_q(&Num::int_c(100)))),
                    _ => Err(perr(r)),
                },
            }
        },
        Rule::negate => {
            match eval_arg(&n.children, 0, r, f) {
                Err(e) => Err(e),
                Ok(v) => match v {
                    Expr::Number(x) => Ok(Expr::Number(x.neg_q())),
                    _ => Err(perr(r)),
                },
            }
        },
        _ => {
            match eval_arg(&n.children, 0, r, f) {
                Err(e) => Err(e),
                Ok(a) => match eval_arg(&n.children, 1, r, f) {
                    Err(e) => Err(e),
                    Ok(b) => match r {
                        Rule::add | Rule::sub | Rule::mul | Rule::div | Rule::pow => arith2(
                            r,
                            a,
                            b,
                        ),
                        _ => cmp2(r, a, b),
                    },
                },
            }
        },
    }
}

} // verus!
