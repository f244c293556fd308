//! The math functions: exact where the rationals allow it, and
//! twelve-place fixed-point approximations for the transcendentals.
//! A domain violation or an unrepresentable result is the `Null`
//! value, never an error; a wrong operand type is a `Parser` error.

use crate::approx::atan_fix;
use crate::approx::atan_fix_spec;
use crate::approx::cadd;
use crate::approx::cadd_spec;
use crate::approx::cos_fix;
use crate::approx::cos_fix_spec;
use crate::approx::exp_fix;
use crate::approx::exp_fix_spec;
use crate::approx::fdiv;
use crate::approx::fdiv_spec;
use crate::approx::fmul;
use crate::approx::fmul_spec;
use crate::approx::from_fix;
use crate::approx::from_fix_spec;
use crate::approx::isqrt;
use crate::approx::isqrt_spec;
use crate::approx::lemma_isqrt_unique;
use crate::approx::ln_fix;
use crate::approx::ln_fix_spec;
use crate::approx::sin_fix;
use crate::approx::sin_fix_spec;
use crate::approx::sqrt_fix;
use crate::approx::sqrt_fix_spec;
use crate::approx::to_fix;
use crate::approx::to_fix_spec;
use crate::approx::FIX;
use crate::eval::all_det;
use crate::eval::arg_spec;
use crate::eval::eval_arg;
use crate::eval::eval_rest;
use crate::eval::num_or_null;
use crate::eval::num_or_null_v;
use crate::eval::ok_wf;
use crate::eval::perr;
use crate::eval::perr_v;
use crate::eval::rest_spec;
use crate::eval::rv;
use crate::eval::Fetcher;
use crate::expr::exprs_view;
use crate::expr::lemma_exprs_view;
use crate::expr::wf_exprv;
use crate::expr::Expr;
use crate::expr::ExprV;
use crate::node::children_view;
use crate::node::lemma_children_view;
use crate::node::wf_node;
use crate::node::Node;
use crate::node::NodeV;
use crate::num::abs_int;
use crate::num::rat_add_spec;
use crate::num::rat_div_spec;
use crate::num::rat_sub_spec;
use crate::num::reduce;
use crate::num::reduce_spec;
use crate::num::Num;
use crate::ops::arith2;
use crate::ops::arith2_spec;
use crate::rules::Rule;
use crate::Error;
use crate::ErrV;
use vstd::prelude::*;

verus! {

broadcast use vstd::std_specs::vec::axiom_vec_decreases_to_view;

pub open spec fn is_math_rule(r: Rule) -> bool {
    match r {
        Rule::abs | Rule::acos | Rule::acosh | Rule::asin | Rule::asinh | Rule::cos | Rule::cosh
            | Rule::sin | Rule::sinh | Rule::tan | Rule::tanh | Rule::atan | Rule::atan2
            | Rule::atanh | Rule::pi | Rule::power | Rule::mod_ | Rule::log | Rule::log10
            | Rule::ln | Rule::sqrt | Rule::sqrtpi | Rule::rand | Rule::sign | Rule::exp
            | Rule::sum => true,
        _ => false,
    }
}

/// Exec twin of `is_math_rule`.
pub fn is_math_rule_x(r: Rule) -> (b: bool)
    ensures
        b == is_math_rule(r),
{
    match r {
        Rule::abs | Rule::acos | Rule::acosh | Rule::asin | Rule::asinh | Rule::cos | Rule::cosh
            | Rule::sin | Rule::sinh | Rule::tan | Rule::tanh | Rule::atan | Rule::atan2
            | Rule::atanh | Rule::pi | Rule::power | Rule::mod_ | Rule::log | Rule::log10
            | Rule::ln | Rule::sqrt | Rule::sqrtpi | Rule::rand | Rule::sign | Rule::exp
            | Rule::sum => true,
        _ => false,
    }
}

/// `exp` of a rational, or `None` past the supported range.
#[verifier::opaque]
pub open spec fn exp_num_spec(n: int, d: int) -> Option<(int, int)> {
    match exp_fix_spec(to_fix_spec(n, d)) {
        None => None,
        Some(w) => from_fix_spec(w),
    }
}

pub fn exp_num(x: &Num) -> (r: Option<Num>)
    requires
        x.wf(),
    ensures
        match r {
            Some(q) => q.wf() && exp_num_spec(x.ni(), x.di()) == Some((q.ni(), q.di())),
            None => exp_num_spec(x.ni(), x.di()) is None,
        },
{
    proof {
        reveal(exp_num_spec);
    }
    match exp_fix(to_fix(x)) {
        None => None,
        Some(w) => from_fix(w),
    }
}

/// `ln` of a rational; non-positive values and values below the
/// scale's resolution have no result.
#[verifier::opaque]
pub open spec fn ln_num_spec(n: int, d: int) -> Option<(int, int)> {
    match ln_fix_spec(to_fix_spec(n, d)) {
        None => None,
        Some(w) => from_fix_spec(w),
    }
}

pub fn ln_num(x: &Num) -> (r: Option<Num>)
    requires
        x.wf(),
    ensures
        match r {
            Some(q) => q.wf() && ln_num_spec(x.ni(), x.di()) == Some((q.ni(), q.di())),
            None => ln_num_spec(x.ni(), x.di()) is None,
        },
{
    proof {
        reveal(ln_num_spec);
    }
    match ln_fix(to_fix(x)) {
        None => None,
        Some(w) => from_fix(w),
    }
}

/// Base-ten logarithm: `ln x / ln 10`.
#[verifier::opaque]
pub open spec fn log10_num_spec(n: int, d: int) -> Option<(int, int)> {
    match ln_fix_spec(to_fix_spec(n, d)) {
        None => None,
        Some(w) => match fdiv_spec(w, 2_302_585_092_994) {
            None => None,
            Some(q) => from_fix_spec(q),
        },
    }
}

pub fn log10_num(x: &Num) -> (r: Option<Num>)
    requires
        x.wf(),
    ensures
        match r {
            Some(q) => q.wf() && log10_num_spec(x.ni(), x.di()) == Some((q.ni(), q.di())),
            None => log10_num_spec(x.ni(), x.di()) is None,
        },
{
    proof {
        reveal(log10_num_spec);
    }
    match ln_fix(to_fix(x)) {
        None => None,
        Some(w) => match fdiv(w, 2_302_585_092_994) {
            None => None,
            Some(q) => from_fix(q),
        },
    }
}

/// `log(x, base)`: the ratio of the two natural logarithms.
#[verifier::opaque]
pub open spec fn log2_num_spec(an: int, ad: int, bn: int, bd: int) -> Option<(int, int)> {
    match ln_fix_spec(to_fix_spec(an, ad)) {
        None => None,
        Some(la) => match ln_fix_spec(to_fix_spec(bn, bd)) {
            None => None,
            Some(lb) => if lb == 0 {
                None
            } else {
                match fdiv_spec(la, lb) {
                    None => None,
                    Some(q) => from_fix_spec(q),
                }
            },
        },
    }
}

pub fn log2_num(a: &Num, b: &Num) -> (r: Option<Num>)
    requires
        a.wf(),
        b.wf(),
    ensures
        match r {
            Some(q) => q.wf() && log2_num_spec(a.ni(), a.di(), b.ni(), b.di()) == Some(
                (q.ni(), q.di()),
            ),
            None => log2_num_spec(a.ni(), a.di(), b.ni(), b.di()) is None,
        },
{
    proof {
        reveal(log2_num_spec);
    }
    match ln_fix(to_fix(a)) {
        None => None,
        Some(la) => match ln_fix(to_fix(b)) {
            None => None,
            Some(lb) => if lb == 0 {
                None
            } else {
                match fdiv(la, lb) {
                    None => None,
                    Some(q) => from_fix(q),
                }
            },
        },
    }
}

/// Square root: exact when numerator and denominator are both
/// perfect squares, a fixed-point approximation otherwise; negative
/// input has no result.
#[verifier::opaque]
pub open spec fn sqrt_num_spec(n: int, d: int) -> Option<(int, int)> {
    if n < 0 {
        None
    } else {
        let sn = isqrt_spec(n);
        let sd = isqrt_spec(d);
        if sn * sn == n && sd * sd == d {
            reduce_spec(sn, sd)
        } else {
            let v = to_fix_spec(n, d);
            match sqrt_fix_spec(v) {
                Some(w) => from_fix_spec(w),
                None => reduce_spec(isqrt_spec(v) * 1_000_000, 1_000_000),
            }
        }
    }
}

pub fn sqrt_num(x: &Num) -> (r: Option<Num>)
    requires
        x.wf(),
        x.ni() >= 0,
    ensures
        match r {
            Some(q) => q.wf() && sqrt_num_spec(x.ni(), x.di()) == Some((q.ni(), q.di())),
            None => sqrt_num_spec(x.ni(), x.di()) is None,
        },
{
    proof {
        reveal(sqrt_num_spec);
    }
    let (n, d) = x.parts();
    let sn = isqrt(n as u128);
    let sd = isqrt(d as u128);
    proof {
        assert(sn * sn <= n as u128);
        assert(sd * sd <= d as u128);
    }
    if sn * sn == n as u128 && sd * sd == d as u128 {
        proof {
            assert(sn <= 0xffff_ffff && 1 <= sd && sd <= 0xffff_ffff) by (nonlinear_arith)
                requires
                    (sn as int) * (sn as int) == n as int,
                    (sd as int) * (sd as int) == d as int,
                    0 <= n as int <= 0x7fff_ffff_ffff_ffff,
                    1 <= d as int <= 0x7fff_ffff_ffff_ffff,
                    sn >= 0,
                    sd >= 0,
            ;
            crate::num::reduce_fits(sn as int, sd as int);
        }
        reduce(sn as i128, sd as i128)
    } else {
        let v = to_fix(x);
        match sqrt_fix(v) {
            Some(w) => from_fix(w),
            None => {
                proof {
                    assert(v >= 0) by {
                        assert(to_fix_spec(x.ni(), x.di()) == crate::approx::idiv_spec(
                            x.ni() * 1_000_000_000_000,
                            x.di(),
                        ));
                        crate::num::lemma_mag_prod(x.ni(), 1_000_000_000_000);
                        vstd::arithmetic::div_mod::lemma_div_pos_is_pos(
                            x.ni() * 1_000_000_000_000,
                            x.di(),
                        );
                    }
                }
                let w = isqrt(v as u128);
                proof {
                    assert(w * w <= v as u128);
                    assert(w < 0x1_0000_0000_0000_0000) by (nonlinear_arith)
                        requires
                            (w as int) * (w as int) <= v as int,
                            v <= 0x7fff_ffff_ffff_ffff_ffff_ffff_ffff_ffff,
                            w >= 0,
                    ;
                    crate::num::reduce_fits(0, 1_000_000);
                }
                reduce(w as i128 * 1_000_000, 1_000_000)
            },
        }
    }
}

/// Arcsine; `|x| > 1` has no result, `|x| = 1` is exactly a half of
/// the circle constant.
#[verifier::opaque]
pub open spec fn asin_num_spec(n: int, d: int) -> Option<(int, int)> {
    if abs_int(n) > d {
        None
    } else if abs_int(n) == d {
        if n < 0 {
            Some((-884279719003555, 0x2_0000_0000_0000))
        } else {
            Some((884279719003555, 0x2_0000_0000_0000))
        }
    } else {
        let xf = to_fix_spec(n, d);
        match fmul_spec(xf, xf) {
            None => None,
            Some(x2) => {
                let s = 1_000_000_000_000 - x2;
                if s <= 0 {
                    if n < 0 {
                        Some((-884279719003555, 0x2_0000_0000_0000))
                    } else {
                        Some((884279719003555, 0x2_0000_0000_0000))
                    }
                } else {
                    match sqrt_fix_spec(s) {
                        None => None,
                        Some(w) => if w == 0 {
                            None
                        } else {
                            match fdiv_spec(xf, w) {
                                None => None,
                                Some(t) => match atan_fix_spec(t) {
                                    None => None,
                                    Some(a) => from_fix_spec(a),
                                },
                            }
                        },
                    }
                }
            },
        }
    }
}

pub fn asin_num(x: &Num) -> (r: Option<Num>)
    requires
        x.wf(),
    ensures
        match r {
            Some(q) => q.wf() && asin_num_spec(x.ni(), x.di()) == Some((q.ni(), q.di())),
            None => asin_num_spec(x.ni(), x.di()) is None,
        },
{
    proof {
        reveal(asin_num_spec);
    }
    let (n, d) = x.parts();
    let an: i64 = if n < 0 {
        -n
    } else {
        n
    };
    if an > d {
        None
    } else if an == d {
        if n < 0 {
            Some(Num::pi_half().neg_q())
        } else {
            Some(Num::pi_half())
        }
    } else {
        let xf = to_fix(x);
        match fmul(xf, xf) {
            None => None,
            Some(x2) => {
                let s: i128 = FIX - x2;
                if s <= 0 {
                    if n < 0 {
                        Some(Num::pi_half().neg_q())
                    } else {
                        Some(Num::pi_half())
                    }
                } else {
                    match sqrt_fix(s) {
                        None => None,
                        Some(w) => if w == 0 {
                            None
                        } else {
                            match fdiv(xf, w) {
                                None => None,
                                Some(t) => match atan_fix(t) {
                                    None => None,
                                    Some(a) => from_fix(a),
                                },
                            }
                        },
                    }
                }
            },
        }
    }
}

/// Sine, for angles within a million radians of zero.
#[verifier::opaque]
pub open spec fn sin_num_spec(n: int, d: int) -> Option<(int, int)> {
    if abs_int(n) > 1_000_000 * d {
        None
    } else {
        match sin_fix_spec(to_fix_spec(n, d)) {
            None => None,
            Some(w) => from_fix_spec(w),
        }
    }
}

pub fn sin_num(x: &Num) -> (r: Option<Num>)
    requires
        x.wf(),
    ensures
        match r {
            Some(q) => q.wf() && sin_num_spec(x.ni(), x.di()) == Some((q.ni(), q.di())),
            None => sin_num_spec(x.ni(), x.di()) is None,
        },
{
    proof {
        reveal(sin_num_spec);
    }
    let (n, d) = x.parts();
    let an: i128 = if n < 0 {
        -(n as i128)
    } else {
        n as i128
    };
    proof {
        crate::num::lemma_mag_prod(1_000_000, x.di());
    }
    if an > 1_000_000 * d as i128 {
        None
    } else {
        match sin_fix(to_fix(x)) {
            None => None,
            Some(w) => from_fix(w),
        }
    }
}

/// Cosine, for angles within a million radians of zero.
#[verifier::opaque]
pub open spec fn cos_num_spec(n: int, d: int) -> Option<(int, int)> {
    if abs_int(n) > 1_000_000 * d {
        None
    } else {
        match cos_fix_spec(to_fix_spec(n, d)) {
            None => None,
            Some(w) => from_fix_spec(w),
        }
    }
}

pub fn cos_num(x: &Num) -> (r: Option<Num>)
    requires
        x.wf(),
    ensures
        match r {
            Some(q) => q.wf() && cos_num_spec(x.ni(), x.di()) == Some((q.ni(), q.di())),
            None => cos_num_spec(x.ni(), x.di()) is None,
        },
{
    proof {
        reveal(cos_num_spec);
    }
    let (n, d) = x.parts();
    let an: i128 = if n < 0 {
        -(n as i128)
    } else {
        n as i128
    };
    proof {
        crate::num::lemma_mag_prod(1_000_000, x.di());
    }
    if an > 1_000_000 * d as i128 {
        None
    } else {
        match cos_fix(to_fix(x)) {
            None => None,
            Some(w) => from_fix(w),
        }
    }
}

/// Tangent: the ratio of the two series; a vanishing cosine has no
/// result.
#[verifier::opaque]
pub open spec fn tan_num_spec(n: int, d: int) -> Option<(int, int)> {
    if abs_int(n) > 1_000_000 * d {
        None
    } else {
        match sin_fix_spec(to_fix_spec(n, d)) {
            None => None,
            Some(s) => match cos_fix_spec(to_fix_spec(n, d)) {
                None => None,
                Some(c) => if c == 0 {
                    None
                } else {
                    match fdiv_spec(s, c) {
                        None => None,
                        Some(q) => from_fix_spec(q),
                    }
                },
            },
        }
    }
}

pub fn tan_num(x: &Num) -> (r: Option<Num>)
    requires
        x.wf(),
    ensures
        match r {
            Some(q) => q.wf() && tan_num_spec(x.ni(), x.di()) == Some((q.ni(), q.di())),
            None => tan_num_spec(x.ni(), x.di()) is None,
        },
{
    proof {
        reveal(tan_num_spec);
    }
    let (n, d) = x.parts();
    let an: i128 = if n < 0 {
        -(n as i128)
    } else {
        n as i128
    };
    proof {
        crate::num::lemma_mag_prod(1_000_000, x.di());
    }
    if an > 1_000_000 * d as i128 {
        None
    } else {
        match sin_fix(to_fix(x)) {
            None => None,
            Some(s) => match cos_fix(to_fix(x)) {
                None => None,
                Some(c) => if c == 0 {
                    None
                } else {
                    match fdiv(s, c) {
                        None => None,
                        Some(q) => from_fix(q),
                    }
                },
            },
        }
    }
}

/// Arccosine: a half turn minus the arcsine, the subtraction exact.
#[verifier::opaque]
pub open spec fn acos_num_spec(n: int, d: int) -> Option<(int, int)> {
    match asin_num_spec(n, d) {
        None => None,
        Some(p) => rat_sub_spec(884279719003555, 0x2_0000_0000_0000, p.0, p.1),
    }
}

pub fn acos_num(x: &Num) -> (r: Option<Num>)
    requires
        x.wf(),
    ensures
        match r {
            Some(q) => q.wf() && acos_num_spec(x.ni(), x.di()) == Some((q.ni(), q.di())),
            None => acos_num_spec(x.ni(), x.di()) is None,
        },
{
    proof {
        reveal(acos_num_spec);
    }
    match asin_num(x) {
        None => None,
        Some(p) => Num::pi_half().sub_q(&p),
    }
}

/// Arctangent over the whole line.
#[verifier::opaque]
pub open spec fn atan_num_spec(n: int, d: int) -> Option<(int, int)> {
    match atan_fix_spec(to_fix_spec(n, d)) {
        None => None,
        Some(a) => from_fix_spec(a),
    }
}

pub fn atan_num(x: &Num) -> (r: Option<Num>)
    requires
        x.wf(),
    ensures
        match r {
            Some(q) => q.wf() && atan_num_spec(x.ni(), x.di()) == Some((q.ni(), q.di())),
            None => atan_num_spec(x.ni(), x.di()) is None,
        },
{
    proof {
        reveal(atan_num_spec);
    }
    match atan_fix(to_fix(x)) {
        None => None,
        Some(a) => from_fix(a),
    }
}

/// Two-argument arctangent, by quadrant.
#[verifier::opaque]
pub open spec fn atan2_num_spec(yn: int, yd: int, xn: int, xd: int) -> Option<(int, int)> {
    let yf = to_fix_spec(yn, yd);
    let xf = to_fix_spec(xn, xd);
    if xf == 0 && yf == 0 {
        Some((0, 1))
    } else if xf == 0 {
        if yf > 0 {
            Some((884279719003555, 0x2_0000_0000_0000))
        } else {
            Some((-884279719003555, 0x2_0000_0000_0000))
        }
    } else {
        match fdiv_spec(yf, xf) {
            None => None,
            Some(t) => match atan_fix_spec(t) {
                None => None,
                Some(a) => if xf > 0 {
                    from_fix_spec(a)
                } else {
                    let adj = if yf >= 0 {
                        cadd_spec(a, 3_141_592_653_589)
                    } else {
                        cadd_spec(a, -3_141_592_653_589)
                    };
                    match adj {
                        None => None,
                        Some(b) => from_fix_spec(b),
                    }
                },
            },
        }
    }
}

pub fn atan2_num(y: &Num, x: &Num) -> (r: Option<Num>)
    requires
        y.wf(),
        x.wf(),
    ensures
        match r {
            Some(q) => q.wf() && atan2_num_spec(y.ni(), y.di(), x.ni(), x.di()) == Some(
                (q.ni(), q.di()),
            ),
            None => atan2_num_spec(y.ni(), y.di(), x.ni(), x.di()) is None,
        },
{
    proof {
        reveal(atan2_num_spec);
    }
    let yf = to_fix(y);
    let xf = to_fix(x);
    if xf == 0 && yf == 0 {
        Some(Num::int_c(0))
    } else if xf == 0 {
        if yf > 0 {
            Some(Num::pi_half())
        } else {
            Some(Num::pi_half().neg_q())
        }
    } else {
        match fdiv(yf, xf) {
            None => None,
            Some(t) => match atan_fix(t) {
                None => None,
                Some(a) => if xf > 0 {
                    from_fix(a)
                } else {
                    let adj = if yf >= 0 {
                        cadd(a, crate::approx::PI_FIX)
                    } else {
                        cadd(a, -crate::approx::PI_FIX)
                    };
                    match adj {
                        None => None,
                        Some(b) => from_fix(b),
                    }
                },
            },
        }
    }
}

/// Hyperbolic sine: `(e^x - e^-x) / 2`.
#[verifier::opaque]
pub open spec fn sinh_num_spec(n: int, d: int) -> Option<(int, int)> {
    match exp_fix_spec(to_fix_spec(n, d)) {
        None => None,
        Some(e) => if e == 0 {
            None
        } else {
            match fdiv_spec(1_000_000_000_000, e) {
                None => None,
                Some(ei) => match cadd_spec(e, -ei) {
                    None => None,
                    Some(dd) => from_fix_spec(crate::approx::idiv_spec(dd, 2)),
                },
            }
        },
    }
}

pub fn sinh_num(x: &Num) -> (r: Option<Num>)
    requires
        x.wf(),
    ensures
        match r {
            Some(q) => q.wf() && sinh_num_spec(x.ni(), x.di()) == Some((q.ni(), q.di())),
            None => sinh_num_spec(x.ni(), x.di()) is None,
        },
{
    proof {
        reveal(sinh_num_spec);
    }
    match exp_fix(to_fix(x)) {
        None => None,
        Some(e) => if e == 0 {
            None
        } else {
            match fdiv(FIX, e) {
                None => None,
                Some(ei) => match cadd(e, -ei) {
                    None => None,
                    Some(dd) => from_fix(crate::approx::idiv(dd, 2)),
                },
            }
        },
    }
}

/// Hyperbolic cosine: `(e^x + e^-x) / 2`.
#[verifier::opaque]
pub open spec fn cosh_num_spec(n: int, d: int) -> Option<(int, int)> {
    match exp_fix_spec(to_fix_spec(n, d)) {
        None => None,
        Some(e) => if e == 0 {
            None
        } else {
            match fdiv_spec(1_000_000_000_000, e) {
                None => None,
                Some(ei) => match cadd_spec(e, ei) {
                    None => None,
                    Some(dd) => from_fix_spec(crate::approx::idiv_spec(dd, 2)),
                },
            }
        },
    }
}

pub fn cosh_num(x: &Num) -> (r: Option<Num>)
    requires
        x.wf(),
    ensures
        match r {
            Some(q) => q.wf() && cosh_num_spec(x.ni(), x.di()) == Some((q.ni(), q.di())),
            None => cosh_num_spec(x.ni(), x.di()) is None,
        },
{
    proof {
        reveal(cosh_num_spec);
    }
    match exp_fix(to_fix(x)) {
        None => None,
        Some(e) => if e == 0 {
            None
        } else {
            match fdiv(FIX, e) {
                None => None,
                Some(ei) => match cadd(e, ei) {
                    None => None,
                    Some(dd) => from_fix(crate::approx::idiv(dd, 2)),
                },
            }
        },
    }
}

/// Hyperbolic tangent: exactly one past eight in magnitude, else
/// `(e^2x - 1) / (e^2x + 1)`.
#[verifier::opaque]
pub open spec fn tanh_num_spec(n: int, d: int) -> Option<(int, int)> {
    if abs_int(n) > 8 * d {
        if n < 0 {
            Some((-1, 1))
        } else {
            Some((1, 1))
        }
    } else {
        match rat_add_spec(n, d, n, d) {
            None => None,
            Some(x2) => match exp_fix_spec(to_fix_spec(x2.0, x2.1)) {
                None => None,
                Some(e) => match cadd_spec(e, 1_000_000_000_000) {
                    None => None,
                    Some(den) => match fdiv_spec(e - 1_000_000_000_000, den) {
                        None => None,
                        Some(q) => from_fix_spec(q),
                    },
                },
            },
        }
    }
}

pub fn tanh_num(x: &Num) -> (r: Option<Num>)
    requires
        x.wf(),
    ensures
        match r {
            Some(q) => q.wf() && tanh_num_spec(x.ni(), x.di()) == Some((q.ni(), q.di())),
            None => tanh_num_spec(x.ni(), x.di()) is None,
        },
{
    proof {
        reveal(tanh_num_spec);
    }
    let (n, d) = x.parts();
    let an: i128 = if n < 0 {
        -(n as i128)
    } else {
        n as i128
    };
    proof {
        crate::num::lemma_mag_prod(8, x.di());
    }
    if an > 8 * d as i128 {
        if n < 0 {
            Some(Num::int_c(-1))
        } else {
            Some(Num::int_c(1))
        }
    } else {
        match x.add_q(x) {
            None => None,
            Some(x2) => match exp_fix(to_fix(&x2)) {
                None => None,
                Some(e) => match cadd(e, FIX) {
                    None => None,
                    Some(den) => match fdiv(e - FIX, den) {
                        None => None,
                        Some(q) => from_fix(q),
                    },
                },
            },
        }
    }
}

/// Inverse hyperbolic sine: `ln(x + sqrt(x^2 + 1))`.
#[verifier::opaque]
pub open spec fn asinh_num_spec(n: int, d: int) -> Option<(int, int)> {
    let xf = to_fix_spec(n, d);
    match fmul_spec(xf, xf) {
        None => None,
        Some(x2) => match cadd_spec(x2, 1_000_000_000_000) {
            None => None,
            Some(s) => match sqrt_fix_spec(s) {
                None => None,
                Some(w) => match cadd_spec(xf, w) {
                    None => None,
                    Some(arg) => match ln_fix_spec(arg) {
                        None => None,
                        Some(l) => from_fix_spec(l),
                    },
                },
            },
        },
    }
}

pub fn asinh_num(x: &Num) -> (r: Option<Num>)
    requires
        x.wf(),
    ensures
        match r {
            Some(q) => q.wf() && asinh_num_spec(x.ni(), x.di()) == Some((q.ni(), q.di())),
            None => asinh_num_spec(x.ni(), x.di()) is None,
        },
{
    proof {
        reveal(asinh_num_spec);
    }
    let xf = to_fix(x);
    match fmul(xf, xf) {
        None => None,
        Some(x2) => match cadd(x2, FIX) {
            None => None,
            Some(s) => match sqrt_fix(s) {
                None => None,
                Some(w) => match cadd(xf, w) {
                    None => None,
                    Some(arg) => match ln_fix(arg) {
                        None => None,
                        Some(l) => from_fix(l),
                    },
                },
            },
        },
    }
}

/// Inverse hyperbolic cosine: `ln(x + sqrt(x^2 - 1))`, for `x >= 1`.
#[verifier::opaque]
pub open spec fn acosh_num_spec(n: int, d: int) -> Option<(int, int)> {
    if n < d {
        None
    } else {
        let xf = to_fix_spec(n, d);
        match fmul_spec(xf, xf) {
            None => None,
            Some(x2) => match cadd_spec(x2, -1_000_000_000_000) {
                None => None,
                Some(s) => match sqrt_fix_spec(s) {
                    None => None,
                    Some(w) => match cadd_spec(xf, w) {
                        None => None,
                        Some(arg) => match ln_fix_spec(arg) {
                            None => None,
                            Some(l) => from_fix_spec(l),
                        },
                    },
                },
            },
        }
    }
}

pub fn acosh_num(x: &Num) -> (r: Option<Num>)
    requires
        x.wf(),
    ensures
        match r {
            Some(q) => q.wf() && acosh_num_spec(x.ni(), x.di()) == Some((q.ni(), q.di())),
            None => acosh_num_spec(x.ni(), x.di()) is None,
        },
{
    proof {
        reveal(acosh_num_spec);
    }
    let (n, d) = x.parts();
    if n < d {
        None
    } else {
        let xf = to_fix(x);
        match fmul(xf, xf) {
            None => None,
            Some(x2) => match cadd(x2, -FIX) {
                None => None,
                Some(s) => match sqrt_fix(s) {
                    None => None,
                    Some(w) => match cadd(xf, w) {
                        None => None,
                        Some(arg) => match ln_fix(arg) {
                            None => None,
                            Some(l) => from_fix(l),
                        },
                    },
                },
            },
        }
    }
}

/// Inverse hyperbolic tangent: `ln((1+x)/(1-x)) / 2`, for `|x| < 1`.
#[verifier::opaque]
pub open spec fn atanh_num_spec(n: int, d: int) -> Option<(int, int)> {
    if abs_int(n) >= d {
        None
    } else {
        let xf = to_fix_spec(n, d);
        match fdiv_spec(1_000_000_000_000 + xf, 1_000_000_000_000 - xf) {
            None => None,
            Some(q) => match ln_fix_spec(q) {
                None => None,
                Some(l) => from_fix_spec(crate::approx::idiv_spec(l, 2)),
            },
        }
    }
}

pub fn atanh_num(x: &Num) -> (r: Option<Num>)
    requires
        x.wf(),
    ensures
        match r {
            Some(q) => q.wf() && atanh_num_spec(x.ni(), x.di()) == Some((q.ni(), q.di())),
            None => atanh_num_spec(x.ni(), x.di()) is None,
        },
{
    proof {
        reveal(atanh_num_spec);
    }
    let (n, d) = x.parts();
    let an: i64 = if n < 0 {
        -n
    } else {
        n
    };
    if an >= d {
        None
    } else {
        let xf = to_fix(x);
        proof {
            assert(crate::approx::absi(xf as int) <= 1_000_000_000_000) by {
                assert(xf as int == crate::approx::idiv_spec(x.ni() * 1_000_000_000_000, x.di()));
                crate::num::lemma_mag_prod(x.ni(), 1_000_000_000_000);
                if x.ni() >= 0 {
                    vstd::arithmetic::div_mod::lemma_div_pos_is_pos(
                        x.ni() * 1_000_000_000_000,
                        x.di(),
                    );
                    assert((x.ni() * 1_000_000_000_000) / x.di() <= 1_000_000_000_000) by {
                        vstd::arithmetic::div_mod::lemma_div_is_ordered(
                            x.ni() * 1_000_000_000_000,
                            x.di() * 1_000_000_000_000,
                            x.di(),
                        );
                        assert(x.ni() * 1_000_000_000_000 <= x.di() * 1_000_000_000_000)
                            by (nonlinear_arith)
                            requires
                                0 <= x.ni() <= x.di(),
                        ;
                        vstd::arithmetic::div_mod::lemma_div_multiples_vanish(
                            1_000_000_000_000,
                            x.di(),
                        );
                    }
                } else {
                    vstd::arithmetic::div_mod::lemma_div_pos_is_pos(
                        -x.ni() * 1_000_000_000_000,
                        x.di(),
                    );
                    assert((-x.ni() * 1_000_000_000_000) / x.di() <= 1_000_000_000_000) by {
                        vstd::arithmetic::div_mod::lemma_div_is_ordered(
                            -x.ni() * 1_000_000_000_000,
                            x.di() * 1_000_000_000_000,
                            x.di(),
                        );
                        assert(-x.ni() * 1_000_000_000_000 <= x.di() * 1_000_000_000_000)
                            by (nonlinear_arith)
                            requires
                                0 <= -x.ni() <= x.di(),
                        ;
                        vstd::arithmetic::div_mod::lemma_div_multiples_vanish(
                            1_000_000_000_000,
                            x.di(),
                        );
                    }
                    assert(abs_int(x.ni()) * 1_000_000_000_000 == -x.ni() * 1_000_000_000_000);
                }
            }
        }
        match fdiv(FIX + xf, FIX - xf) {
            None => None,
            Some(q) => match ln_fix(q) {
                None => None,
                Some(l) => from_fix(crate::approx::idiv(l, 2)),
            },
        }
    }
}

/// Square root of the argument times the circle constant.
#[verifier::opaque]
pub open spec fn sqrtpi_num_spec(n: int, d: int) -> Option<(int, int)> {
    match crate::num::rat_mul_spec(n, d, 884279719003555, 0x1_0000_0000_0000) {
        None => None,
        Some(p) => if p.0 < 0 {
            None
        } else {
            sqrt_num_spec(p.0, p.1)
        },
    }
}

pub fn sqrtpi_num(x: &Num) -> (r: Option<Num>)
    requires
        x.wf(),
    ensures
        match r {
            Some(q) => q.wf() && sqrtpi_num_spec(x.ni(), x.di()) == Some((q.ni(), q.di())),
            None => sqrtpi_num_spec(x.ni(), x.di()) is None,
        },
{
    proof {
        reveal(sqrtpi_num_spec);
    }
    match x.mul_q(&Num::pi()) {
        None => None,
        Some(p) => {
            let (pn, _pd) = p.parts();
            if pn < 0 {
                None
            } else {
                sqrt_num(&p)
            }
        },
    }
}

/// One unary math function applied to a number.
#[verifier::opaque]
pub open spec fn math1_spec(r: Rule, n: int, d: int) -> ExprV {
    if r == Rule::abs {
        ExprV::Number { n: abs_int(n), d }
    } else if r == Rule::sign {
        ExprV::Number {
            n: if n < 0 {
                -1
            } else if n == 0 {
                0
            } else {
                1
            },
            d: 1,
        }
    } else if r == Rule::sqrt {
        if n < 0 {
            ExprV::Null
        } else {
            num_or_null_v(sqrt_num_spec(n, d))
        }
    } else if r == Rule::sqrtpi {
        if n < 0 {
            ExprV::Null
        } else {
            num_or_null_v(sqrtpi_num_spec(n, d))
        }
    } else if r == Rule::exp {
        num_or_null_v(exp_num_spec(n, d))
    } else if r == Rule::ln {
        num_or_null_v(ln_num_spec(n, d))
    } else if r == Rule::log10 {
        num_or_null_v(log10_num_spec(n, d))
    } else if r == Rule::sin {
        num_or_null_v(sin_num_spec(n, d))
    } else if r == Rule::cos {
        num_or_null_v(cos_num_spec(n, d))
    } else if r == Rule::tan {
        num_or_null_v(tan_num_spec(n, d))
    } else if r == Rule::asin {
        num_or_null_v(asin_num_spec(n, d))
    } else if r == Rule::acos {
        num_or_null_v(acos_num_spec(n, d))
    } else if r == Rule::atan {
        num_or_null_v(atan_num_spec(n, d))
    } else if r == Rule::sinh {
        num_or_null_v(sinh_num_spec(n, d))
    } else if r == Rule::cosh {
        num_or_null_v(cosh_num_spec(n, d))
    } else if r == Rule::tanh {
        num_or_null_v(tanh_num_spec(n, d))
    } else if r == Rule::asinh {
        num_or_null_v(asinh_num_spec(n, d))
    } else if r == Rule::acosh {
        num_or_null_v(acosh_num_spec(n, d))
    } else {
        num_or_null_v(atanh_num_spec(n, d))
    }
}

/// Exec twin of `math1_spec`.
fn math1(r: Rule, x: Num) -> (e: Expr)
    requires
        x.wf(),
    ensures
        e@ == math1_spec(r, x.ni(), x.di()),
        wf_exprv(e@),
{
    proof {
        reveal(math1_spec);
    }
    match r {
        Rule::abs => Expr::Number(x.abs_q()),
        Rule::sign => Expr::Number(x.sign_q()),
        Rule::sqrt => {
            let (n, _d) = x.parts();
            if n < 0 {
                Expr::Null
            } else {
                num_or_null(sqrt_num(&x))
            }
        },
        Rule::sqrtpi => {
            let (n, _d) = x.parts();
            if n < 0 {
                Expr::Null
            } else {
                num_or_null(sqrtpi_num(&x))
            }
        },
        Rule::exp => num_or_null(exp_num(&x)),
        Rule::ln => num_or_null(ln_num(&x)),
        Rule::log10 => num_or_null(log10_num(&x)),
        Rule::sin => num_or_null(sin_num(&x)),
        Rule::cos => num_or_null(cos_num(&x)),
        Rule::tan => num_or_null(tan_num(&x)),
        Rule::asin => num_or_null(asin_num(&x)),
        Rule::acos => num_or_null(acos_num(&x)),
        Rule::atan => num_or_null(atan_num(&x)),
        Rule::sinh => num_or_null(sinh_num(&x)),
        Rule::cosh => num_or_null(cosh_num(&x)),
        Rule::tanh => num_or_null(tanh_num(&x)),
        Rule::asinh => num_or_null(asinh_num(&x)),
        Rule::acosh => num_or_null(acosh_num(&x)),
        _ => num_or_null(atanh_num(&x)),
    }
}

/// `SUM`: one required and many optional numbers, folded exactly.
pub open spec fn fold_sum(vs: Seq<ExprV>, k: int, accn: int, accd: int, r: Rule) -> Result<
    ExprV,
    ErrV,
>
    decreases vs.len() - k,
{
    if !(0 <= k < vs.len()) {
        Ok(ExprV::Number { n: accn, d: accd })
    } else {
        match vs[k] {
            ExprV::Number { n: bn, d: bd } => match rat_add_spec(accn, accd, bn, bd) {
                None => Ok(ExprV::Null),
                Some(p) => fold_sum(vs, k + 1, p.0, p.1, r),
            },
            _ => Err(perr_v(r)),
        }
    }
}

/// The math category of `eval_spec`.
#[verifier::opaque]
pub open spec fn eval_math_spec(n: NodeV) -> Result<ExprV, ErrV>
    decreases n, 1int, 0int,
{
    let r = n.rule;
    if r == Rule::pi {
        Ok(ExprV::Number { n: 884279719003555, d: 0x1_0000_0000_0000 })
    } else if r == Rule::rand {
        // non-deterministic; the spec value is unused
        Ok(ExprV::Null)
    } else if r == Rule::power || r == Rule::mod_ {
        match arg_spec(n.children, 0, r) {
            Err(e) => Err(e),
            Ok(a) => match arg_spec(n.children, 1, r) {
                Err(e) => Err(e),
                Ok(b) => arith2_spec(r, a, b),
            },
        }
    } else if r == Rule::atan2 {
        match arg_spec(n.children, 0, r) {
            Err(e) => Err(e),
            Ok(a) => match arg_spec(n.children, 1, r) {
                Err(e) => Err(e),
                Ok(b) => match (a, b) {
                    (ExprV::Number { n: an, d: ad }, ExprV::Number { n: bn, d: bd }) => Ok(
                        num_or_null_v(atan2_num_spec(an, ad, bn, bd)),
                    ),
                    _ => Err(perr_v(r)),
                },
            },
        }
    } else if r == Rule::log {
        match arg_spec(n.children, 0, r) {
            Err(e) => Err(e),
            Ok(a) => match arg_spec(n.children, 1, r) {
                Err(e) => Err(e),
                Ok(b) => match (a, b) {
                    (ExprV::Number { n: an, d: ad }, ExprV::Number { n: bn, d: bd }) => Ok(
                        num_or_null_v(log2_num_spec(an, ad, bn, bd)),
                    ),
                    _ => Err(perr_v(r)),
                },
            },
        }
    } else if r == Rule::sum {
        match arg_spec(n.children, 0, r) {
            Err(e) => Err(e),
            Ok(first) => match rest_spec(n.children, 1) {
                Err(e) => Err(e),
                Ok(vs) => match first {
                    ExprV::Number { n: an, d: ad } => fold_sum(vs, 0, an, ad, r),
                    _ => Err(perr_v(r)),
                },
            },
        }
    } else {
        match arg_spec(n.children, 0, r) {
            Err(e) => Err(e),
            Ok(v) => match v {
                ExprV::Number { n: an, d: ad } => Ok(math1_spec(r, an, ad)),
                _ => Err(perr_v(r)),
            },
        }
    }
}

/// Exec twin of `fold_sum`.
fn fold_sum_x(vs: &Vec<Expr>, x0: Num, r: Rule) -> (res: Result<Expr, Error>)
    requires
        x0.wf(),
        forall|i: int| 0 <= i < vs@.len() ==> wf_exprv(#[trigger] exprs_view(vs@)[i]),
    ensures
        match res {
            Ok(e) => fold_sum(exprs_view(vs@), 0, x0.ni(), x0.di(), r) == Ok::<ExprV, ErrV>(e@)
                && wf_exprv(e@),
            Err(e) => fold_sum(exprs_view(vs@), 0, x0.ni(), x0.di(), r) == Err::<ExprV, ErrV>(e@),
        },
{
    let mut acc = x0;
    let mut k: usize = 0;
    proof {
        lemma_exprs_view(vs@);
    }
    while k < vs.len()
        invariant
            0 <= k <= vs@.len(),
            acc.wf(),
            exprs_view(vs@).len() == vs@.len(),
            forall|i: int| 0 <= i < vs@.len() ==> exprs_view(vs@)[i] == #[trigger] vs@[i]@,
            forall|i: int| 0 <= i < vs@.len() ==> wf_exprv(#[trigger] exprs_view(vs@)[i]),
            fold_sum(exprs_view(vs@), 0, x0.ni(), x0.di(), r) == fold_sum(
                exprs_view(vs@),
                k as int,
                acc.ni(),
                acc.di(),
                r,
            ),
        decreases vs@.len() - k,
    {
        proof {
            assert(exprs_view(vs@)[k as int] == vs@[k as int]@);
        }
        match &vs[k] {
            Expr::Number(b) => {
                match acc.add_q(b) {
                    None => {
                        return Ok(Expr::Null);
                    },
                    Some(s) => {
                        acc = s;
                    },
                }
            },
            _ => {
                return Err(perr(r));
            },
        }
        k += 1;
    }
    Ok(Expr::Number(acc))
}

/// Relies on `rand::random`: one machine-word draw from the thread's
/// generator; nothing is assumed of the value.
#[verifier::external_body]
fn rand_u64() -> u64 {
    rand::random()
}

/// Exec twin of `eval_math_spec`.
#[verifier::rlimit(100)]
pub fn eval_math<F: Fetcher>(n: &Node, f: &mut F) -> (res: Result<Expr, Error>)
    requires
        wf_node(n@),
        is_math_rule(n@.rule),
    ensures
        crate::eval::is_det(n@) ==> rv(res) == eval_math_spec(n@),
        ok_wf(res),
        n@.rule == Rule::rand ==> crate::eval::unit_number_res(rv(res)),
    decreases n, 1int, 0int,
{
    proof {
        reveal(eval_math_spec);
    }
    proof {
        lemma_children_view(n.children@);
        assert(n@.children == children_view(n.children@));
        crate::eval::lemma_node_kids(n@);
    }
    let r = n.rule;
    match r {
        Rule::pi => Ok(Expr::Number(Num::pi())),
        Rule::rand => {
            let x: u64 = rand_u64();
            let xm: u64 = x % 1_000_000_000_000_000;
            let q = Num::int_c(xm as i64);
            match q.div_q(&Num::int_c(1_000_000_000_000_000)) {
                Some(w) => {
                    proof {
                        assert(0 <= w.ni() && w.ni() < w.di()) by (nonlinear_arith)
                            requires
                                w.ni() * (1 * 1_000_000_000_000_000) == (xm as int * 1) * w.di(),
                                0 <= xm < 1_000_000_000_000_000,
                                1 <= w.di(),
                        ;
                    }
                    Ok(Expr::Number(w))
                },
                None => {
                    proof {
                        crate::num::reduce_fits(xm as int * 1, 1int * 1_000_000_000_000_000);
                        assert(false);
                    }
                    Ok(Expr::Null)
                },
            }
        },
        Rule::power | Rule::mod_ => {
            match eval_arg(&n.children, 0, r, f) {
                Err(e) => Err(e),
                Ok(a) => match eval_arg(&n.children, 1, r, f) {
                    Err(e) => Err(e),
                    Ok(b) => arith2(r, a, b),
                },
            }
        },
        Rule::atan2 => {
            match eval_arg(&n.children, 0, r, f) {
                Err(e) => Err(e),
                Ok(a) => match eval_arg(&n.children, 1, r, f) {
                    Err(e) => Err(e),
                    Ok(b) => match (a, b) {
                        (Expr::Number(x), Expr::Number(y)) => Ok(num_or_null(atan2_num(&x, &y))),
                        _ => Err(perr(r)),
                    },
                },
            }
        },
        Rule::log => {
            match eval_arg(&n.children, 0, r, f) {
                Err(e) => Err(e),
                Ok(a) => match eval_arg(&n.children, 1, r, f) {
                    Err(e) => Err(e),
                    Ok(b) => match (a, b) {
                        (Expr::Number(x), Expr::Number(y)) => Ok(num_or_null(log2_num(&x, &y))),
                        _ => Err(perr(r)),
                    },
                },
            }
        },
        Rule::sum => {
            match eval_arg(&n.children, 0, r, f) {
                Err(e) => Err(e),
                Ok(first) => match eval_rest(&n.children, 1, f) {
                    Err(e) => Err(e),
                    Ok(vs) => match first {
                        Expr::Number(x0) => fold_sum_x(&vs, x0, r),
                        _ => Err(perr(r)),
                    },
                },
            }
        },
        _ => {
            match eval_arg(&n.children, 0, r, f) {
                Err(e) => Err(e),
                Ok(v) => match v {
                    Expr::Number(x) => Ok(math1(r, x)),
                    _ => Err(perr(r)),
                },
            }
        },
    }
}

} // verus!
