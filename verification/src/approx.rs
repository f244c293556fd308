//! Deterministic fixed-point approximations of the transcendental
//! functions, over twelve decimal places.
//!
//! Every step is checked arithmetic mirrored by a spec twin, so each
//! function is a mathematical function of its argument: the same
//! input always yields the same output.  A value outside a function's
//! supported range yields `None`, which the evaluator turns into
//! `Null`.

use crate::num::Num;
use crate::num::reduce;
use crate::num::reduce_spec;
use vstd::prelude::*;

verus! {

/// The fixed-point scale: twelve decimal places.
pub const FIX: i128 = 1_000_000_000_000;

const IMAX: i128 = 0x7fff_ffff_ffff_ffff_ffff_ffff_ffff_ffff;

pub open spec fn absi(x: int) -> int {
    if x < 0 {
        -x
    } else {
        x
    }
}

/// Fixed-point product `a * b / FIX`, truncated toward zero.
pub open spec fn fmul_spec(a: int, b: int) -> Option<int> {
    let m = absi(a) * absi(b);
    if m > 0xffff_ffff_ffff_ffff_ffff_ffff_ffff_ffff {
        None
    } else {
        let q = m / 1_000_000_000_000;
        if q > 0x7fff_ffff_ffff_ffff_ffff_ffff_ffff_ffff {
            None
        } else if (a < 0) != (b < 0) {
            Some(-q)
        } else {
            Some(q)
        }
    }
}

pub fn fmul(a: i128, b: i128) -> (r: Option<i128>)
    requires
        a > i128::MIN,
        b > i128::MIN,
    ensures
        match r {
            Some(v) => fmul_spec(a as int, b as int) == Some(v as int) && v > i128::MIN,
            None => fmul_spec(a as int, b as int) is None,
        },
{
    let au: u128 = if a < 0 {
        (-a) as u128
    } else {
        a as u128
    };
    let bu: u128 = if b < 0 {
        (-b) as u128
    } else {
        b as u128
    };
    match au.checked_mul(bu) {
        None => None,
        Some(m) => {
            let q = m / (FIX as u128);
            if q > IMAX as u128 {
                None
            } else if (a < 0) != (b < 0) {
                Some(-(q as i128))
            } else {
                Some(q as i128)
            }
        },
    }
}

/// Fixed-point quotient `a * FIX / b`, truncated toward zero.
pub open spec fn fdiv_spec(a: int, b: int) -> Option<int> {
    if b == 0 {
        None
    } else {
        let m = absi(a) * 1_000_000_000_000;
        if m > 0xffff_ffff_ffff_ffff_ffff_ffff_ffff_ffff {
            None
        } else {
            let q = m / absi(b);
            if q > 0x7fff_ffff_ffff_ffff_ffff_ffff_ffff_ffff {
                None
            } else if (a < 0) != (b < 0) {
                Some(-q)
            } else {
                Some(q)
            }
        }
    }
}

pub fn fdiv(a: i128, b: i128) -> (r: Option<i128>)
    requires
        a > i128::MIN,
        b > i128::MIN,
    ensures
        match r {
            Some(v) => fdiv_spec(a as int, b as int) == Some(v as int) && v > i128::MIN,
            None => fdiv_spec(a as int, b as int) is None,
        },
{
    if b == 0 {
        return None;
    }
    let au: u128 = if a < 0 {
        (-a) as u128
    } else {
        a as u128
    };
    let bu: u128 = if b < 0 {
        (-b) as u128
    } else {
        b as u128
    };
    match au.checked_mul(FIX as u128) {
        None => None,
        Some(m) => {
            let q = m / bu;
            if q > IMAX as u128 {
                None
            } else if (a < 0) != (b < 0) {
                Some(-(q as i128))
            } else {
                Some(q as i128)
            }
        },
    }
}

/// The integer square root: the unique `r` with
/// `r * r <= v < (r + 1) * (r + 1)`.
pub open spec fn isqrt_spec(v: int) -> int {
    choose|r: int| 0 <= r && #[trigger] (r * r) <= v && v < (r + 1) * (r + 1)
}

/// The characterization pins the value down.
pub proof fn lemma_isqrt_unique(v: int, r: int)
    requires
        0 <= r,
        r * r <= v,
        v < (r + 1) * (r + 1),
    ensures
        isqrt_spec(v) == r,
{
    assert(exists|w: int| 0 <= w && #[trigger] (w * w) <= v && v < (w + 1) * (w + 1)) by {
        assert(0 <= r && r * r <= v && v < (r + 1) * (r + 1));
    }
    let u = isqrt_spec(v);
    assert(0 <= u && u * u <= v && v < (u + 1) * (u + 1));
    assert(u == r) by (nonlinear_arith)
        requires
            0 <= r,
            0 <= u,
            r * r <= v,
            u * u <= v,
            v < (r + 1) * (r + 1),
            v < (u + 1) * (u + 1),
    ;
}

pub open spec fn pow2_int(k: nat) -> int
    decreases k,
{
    if k == 0 {
        1
    } else {
        2 * pow2_int((k - 1) as nat)
    }
}

proof fn lemma_pow2_63()
    ensures
        pow2_int(63) == 0x8000_0000_0000_0000,
{
    reveal_with_fuel(pow2_int, 64);
}

/// Bitwise integer square root.
pub fn isqrt(v: u128) -> (r: u128)
    ensures
        r as int == isqrt_spec(v as int),
        r * r <= v,
{
    let mut r: u128 = 0;
    let mut p: u128 = 0x8000_0000_0000_0000;
    let ghost mut k: nat = 63;
    proof {
        lemma_pow2_63();
        assert((0 + 2 * 0x8000_0000_0000_0000) * (0 + 2 * 0x8000_0000_0000_0000) > v as int)
            by (nonlinear_arith)
            requires
                v <= 0xffff_ffff_ffff_ffff_ffff_ffff_ffff_ffff,
        ;
    }
    while p > 0
        invariant
            p as int == if p > 0 {
                pow2_int(k)
            } else {
                p as int
            },
            r as int * r as int <= v as int,
            p > 0 ==> (r as int + 2 * p as int) * (r as int + 2 * p as int) > v as int,
            p == 0 ==> (r as int + 1) * (r as int + 1) > v as int,
            r <= 0xffff_ffff_ffff_ffff,
            p <= 0x8000_0000_0000_0000,
        decreases p,
    {
        let t = r + p;
        let fits = match t.checked_mul(t) {
            Some(sq) => sq <= v,
            None => false,
        };
        proof {
            if k > 0 {
                assert(pow2_int(k) == 2 * pow2_int((k - 1) as nat));
            }
        }
        if fits {
            proof {
                assert((t as int) * (t as int) <= v as int);
                assert(t <= 0xffff_ffff_ffff_ffff) by (nonlinear_arith)
                    requires
                        (t as int) * (t as int) <= v as int,
                        v <= 0xffff_ffff_ffff_ffff_ffff_ffff_ffff_ffff,
                        t >= 0,
                ;
            }
            r = t;
        }
        proof {
            assert((r as int + p as int) * (r as int + p as int) > v as int) by {
                if fits {
                } else {
                    assert((t as int) * (t as int) > v as int) by {
                        if t.checked_mul(t) is None {
                            assert((t as int) * (t as int)
                                > 0xffff_ffff_ffff_ffff_ffff_ffff_ffff_ffff);
                        }
                    }
                }
            }
            if k > 0 {
                k = (k - 1) as nat;
                assert(2 * pow2_int(k) == p as int);
                assert((r as int + 2 * (p as int / 2)) * (r as int + 2 * (p as int / 2)) > v as int)
                    by (nonlinear_arith)
                    requires
                        (r as int + p as int) * (r as int + p as int) > v as int,
                        p as int == 2 * (p as int / 2),
                        p > 0,
                        r >= 0,
                ;
            } else {
                assert(p == 1);
            }
        }
        p = p / 2;
    }
    proof {
        lemma_isqrt_unique(v as int, r as int);
    }
    r
}

/// Checked sum that also rules out `i128::MIN`.
pub open spec fn cadd_spec(a: int, b: int) -> Option<int> {
    let s = a + b;
    if -0x7fff_ffff_ffff_ffff_ffff_ffff_ffff_ffff <= s <= 0x7fff_ffff_ffff_ffff_ffff_ffff_ffff_ffff {
        Some(s)
    } else {
        None
    }
}

pub fn cadd(a: i128, b: i128) -> (r: Option<i128>)
    ensures
        match r {
            Some(v) => cadd_spec(a as int, b as int) == Some(v as int) && v > i128::MIN,
            None => cadd_spec(a as int, b as int) is None,
        },
{
    match a.checked_add(b) {
        None => None,
        Some(s) => if s == i128::MIN {
            None
        } else {
            Some(s)
        },
    }
}

/// Truncated-toward-zero division by a positive divisor.
pub open spec fn idiv_spec(a: int, b: int) -> int {
    if a < 0 {
        -((-a) / b)
    } else {
        a / b
    }
}

pub fn idiv(a: i128, b: i128) -> (r: i128)
    requires
        a > i128::MIN,
        1 <= b,
    ensures
        r as int == idiv_spec(a as int, b as int),
        r > i128::MIN,
        r as int == 0 || absi(r as int) <= absi(a as int),
{
    let au: u128 = if a < 0 {
        (-a) as u128
    } else {
        a as u128
    };
    let q = au / (b as u128);
    proof {
        vstd::arithmetic::div_mod::lemma_div_nonincreasing(au as int, b as int);
        vstd::arithmetic::div_mod::lemma_div_pos_is_pos(au as int, b as int);
    }
    if a < 0 {
        -(q as i128)
    } else {
        q as i128
    }
}

/// One generic series tail: `term/j + t2*term/(j+2) + ...`, the shape
/// of the `atanh` series for the logarithm and of the `atan` series.
pub open spec fn ser_odd_spec(x2: int, term: int, j: int, fuel: nat) -> Option<int>
    decreases fuel,
{
    if fuel == 0 {
        Some(0)
    } else if j < 1 {
        None
    } else {
        match fmul_spec(term, x2) {
            None => None,
            Some(nt) => match ser_odd_spec(x2, nt, j + 2, (fuel - 1) as nat) {
                None => None,
                Some(rest) => cadd_spec(idiv_spec(term, j), rest),
            },
        }
    }
}

pub fn ser_odd(x2: i128, term: i128, j: i128, fuel: u32) -> (r: Option<i128>)
    requires
        x2 > i128::MIN,
        term > i128::MIN,
        j > i128::MIN,
        j + 2 * fuel < 0x7fff_ffff_ffff_ffff,
    ensures
        match r {
            Some(v) => ser_odd_spec(x2 as int, term as int, j as int, fuel as nat) == Some(
                v as int,
            ) && v > i128::MIN,
            None => ser_odd_spec(x2 as int, term as int, j as int, fuel as nat) is None,
        },
    decreases fuel,
{
    if fuel == 0 {
        Some(0)
    } else if j < 1 {
        None
    } else {
        match fmul(term, x2) {
            None => None,
            Some(nt) => match ser_odd(x2, nt, j + 2, fuel - 1) {
                None => None,
                Some(rest) => cadd(idiv(term, j), rest),
            },
        }
    }
}

/// The exponential series tail: `term + term*t/(j+1) + ...`.
pub open spec fn ser_exp_spec(t: int, term: int, j: int, fuel: nat) -> Option<int>
    decreases fuel,
{
    if fuel == 0 {
        Some(0)
    } else if j < 0 {
        None
    } else {
        match fmul_spec(term, t) {
            None => None,
            Some(p) => {
                let nt = idiv_spec(p, j + 1);
                match ser_exp_spec(t, nt, j + 1, (fuel - 1) as nat) {
                    None => None,
                    Some(rest) => cadd_spec(term, rest),
                }
            },
        }
    }
}

pub fn ser_exp(t: i128, term: i128, j: i128, fuel: u32) -> (r: Option<i128>)
    requires
        t > i128::MIN,
        term > i128::MIN,
        0 <= j,
        j + fuel < 0x7fff_ffff_ffff_ffff,
    ensures
        match r {
            Some(v) => ser_exp_spec(t as int, term as int, j as int, fuel as nat) == Some(v as int)
                && v > i128::MIN,
            None => ser_exp_spec(t as int, term as int, j as int, fuel as nat) is None,
        },
    decreases fuel,
{
    if fuel == 0 {
        Some(0)
    } else {
        match fmul(term, t) {
            None => None,
            Some(p) => {
                let nt = idiv(p, j + 1);
                match ser_exp(t, nt, j + 1, fuel - 1) {
                    None => None,
                    Some(rest) => cadd(term, rest),
                }
            },
        }
    }
}

/// `exp` on fixed-point: series on `x / 64`, then six squarings.
/// Callers keep `|x|` at most sixteen.
pub open spec fn exp_fix_spec(x: int) -> Option<int> {
    if absi(x) > 16 * 1_000_000_000_000 {
        None
    } else {
        let t = idiv_spec(x, 64);
        match ser_exp_spec(t, 1_000_000_000_000, 0, 14) {
            None => None,
            Some(s0) => sq6_spec(s0),
        }
    }
}

pub open spec fn sq6_spec(y: int) -> Option<int> {
    match fmul_spec(y, y) {
        None => None,
        Some(y1) => match fmul_spec(y1, y1) {
            None => None,
            Some(y2) => match fmul_spec(y2, y2) {
                None => None,
                Some(y3) => match fmul_spec(y3, y3) {
                    None => None,
                    Some(y4) => match fmul_spec(y4, y4) {
                        None => None,
                        Some(y5) => fmul_spec(y5, y5),
                    },
                },
            },
        },
    }
}

fn sq6(y: i128) -> (r: Option<i128>)
    requires
        y > i128::MIN,
    ensures
        match r {
            Some(v) => sq6_spec(y as int) == Some(v as int) && v > i128::MIN,
            None => sq6_spec(y as int) is None,
        },
{
    match fmul(y, y) {
        None => None,
        Some(y1) => match fmul(y1, y1) {
            None => None,
            Some(y2) => match fmul(y2, y2) {
                None => None,
                Some(y3) => match fmul(y3, y3) {
                    None => None,
                    Some(y4) => match fmul(y4, y4) {
                        None => None,
                        Some(y5) => fmul(y5, y5),
                    },
                },
            },
        },
    }
}

pub fn exp_fix(x: i128) -> (r: Option<i128>)
    requires
        x > i128::MIN,
    ensures
        match r {
            Some(v) => exp_fix_spec(x as int) == Some(v as int) && v > i128::MIN,
            None => exp_fix_spec(x as int) is None,
        },
{
    let lim: i128 = 16 * FIX;
    let ax: i128 = if x < 0 {
        -x
    } else {
        x
    };
    if ax > lim {
        None
    } else {
        let t = idiv(x, 64);
        match ser_exp(t, FIX, 0, 14) {
            None => None,
            Some(s0) => sq6(s0),
        }
    }
}

/// Checked product that also rules out `i128::MIN`.
pub open spec fn cmul_spec(a: int, b: int) -> Option<int> {
    let p = a * b;
    if -0x7fff_ffff_ffff_ffff_ffff_ffff_ffff_ffff <= p <= 0x7fff_ffff_ffff_ffff_ffff_ffff_ffff_ffff {
        Some(p)
    } else {
        None
    }
}

pub fn cmul(a: i128, b: i128) -> (r: Option<i128>)
    ensures
        match r {
            Some(v) => cmul_spec(a as int, b as int) == Some(v as int) && v > i128::MIN,
            None => cmul_spec(a as int, b as int) is None,
        },
{
    match a.checked_mul(b) {
        None => None,
        Some(p) => if p == i128::MIN {
            None
        } else {
            Some(p)
        },
    }
}

/// Halve into `[0, 3/2)` counting the powers of two removed.
pub open spec fn halve_spec(m: int, e: int, fuel: nat) -> (int, int)
    decreases fuel,
{
    if fuel > 0 && m >= 1_500_000_000_000 {
        halve_spec(m / 2, e + 1, (fuel - 1) as nat)
    } else {
        (m, e)
    }
}

/// Double into `[3/4, ..)` counting the powers of two added.
pub open spec fn double_spec(m: int, e: int, fuel: nat) -> (int, int)
    decreases fuel,
{
    if fuel > 0 && 1 <= m < 750_000_000_000 {
        double_spec(2 * m, e - 1, (fuel - 1) as nat)
    } else {
        (m, e)
    }
}

/// Natural logarithm on fixed-point, `None` for values below the
/// scale's resolution: `ln m + e ln 2` after range reduction of `m`
/// into `[3/4, 3/2)`.
pub open spec fn ln_fix_spec(v: int) -> Option<int> {
    if v < 1 {
        None
    } else {
        let me = halve_spec(v, 0, 140);
        let me2 = double_spec(me.0, me.1, 60);
        let m = me2.0;
        let e = me2.1;
        if m >= 1_500_000_000_000 {
            None
        } else {
            match fdiv_spec(m - 1_000_000_000_000, m + 1_000_000_000_000) {
                None => None,
                Some(t) => match fmul_spec(t, t) {
                    None => None,
                    Some(t2) => match ser_odd_spec(t2, t, 1, 13) {
                        None => None,
                        Some(s) => match cmul_spec(2, s) {
                            None => None,
                            Some(s2) => match cmul_spec(e, 693_147_180_559) {
                                None => None,
                                Some(el) => cadd_spec(s2, el),
                            },
                        },
                    },
                },
            }
        }
    }
}

pub fn ln_fix(v: i128) -> (r: Option<i128>)

    requires
        v > i128::MIN,
    ensures
        match r {
            Some(w) => ln_fix_spec(v as int) == Some(w as int) && w > i128::MIN,
            None => ln_fix_spec(v as int) is None,
        },
{
    if v < 1 {
        return None;
    }
    let mut m: i128 = v;
    let mut e: i128 = 0;
    let mut i: u32 = 0;
    while i < 140 && m >= 1_500_000_000_000
        invariant
            1 <= m,
            0 <= i <= 140,
            e == i,
            halve_spec(v as int, 0, 140) == halve_spec(m as int, e as int, (140 - i) as nat),
        decreases 140 - i,
    {
        m = m / 2;
        e = e + 1;
        i = i + 1;
    }
    let ghost me = halve_spec(v as int, 0, 140);
    proof {
        assert(me == halve_spec(m as int, e as int, (140 - i) as nat));
        if i < 140 {
            assert(me == (m as int, e as int));
        } else {
            assert(me == (m as int, e as int));
        }
    }
    let mut j: u32 = 0;
    let ghost e0 = e as int;
    while j < 60 && 1 <= m && m < 750_000_000_000
        invariant
            0 <= j <= 60,
            0 <= e0 <= 140,
            1 <= m,
            e as int == e0 - j,
            double_spec(me.0, me.1, 60) == double_spec(m as int, e as int, (60 - j) as nat),
        decreases 60 - j,
    {
        m = 2 * m;
        e = e - 1;
        j = j + 1;
    }
    proof {
        assert(double_spec(me.0, me.1, 60) == (m as int, e as int));
    }
    if m >= 1_500_000_000_000 {
        return None;
    }
    match fdiv(m - FIX, m + FIX) {
        None => None,
        Some(t) => match fmul(t, t) {
            None => None,
            Some(t2) => match ser_odd(t2, t, 1, 13) {
                None => None,
                Some(s) => match cmul(2, s) {
                    None => None,
                    Some(s2) => match cmul(e, 693_147_180_559) {
                        None => None,
                        Some(el) => cadd(s2, el),
                    },
                },
            },
        },
    }
}

/// The circle constants scaled by `FIX`, truncated.
pub const PI_FIX: i128 = 3_141_592_653_589;

pub const TWO_PI_FIX: i128 = 6_283_185_307_179;

pub const PI_HALF_FIX: i128 = 1_570_796_326_794;

/// The trigonometric series tail `term + term*nx2/(j*(j+1)) + ...`.
pub open spec fn ser_trig_spec(nx2: int, term: int, j: int, fuel: nat) -> Option<int>
    decreases fuel,
{
    if fuel == 0 {
        Some(0)
    } else if j < 1 || j > 100 {
        None
    } else {
        match fmul_spec(term, nx2) {
            None => None,
            Some(p) => {
                let nt = idiv_spec(p, j * (j + 1));
                match ser_trig_spec(nx2, nt, j + 2, (fuel - 1) as nat) {
                    None => None,
                    Some(rest) => cadd_spec(term, rest),
                }
            },
        }
    }
}

pub fn ser_trig(nx2: i128, term: i128, j: i128, fuel: u32) -> (r: Option<i128>)
    requires
        nx2 > i128::MIN,
        term > i128::MIN,
        1 <= j,
    ensures
        match r {
            Some(v) => ser_trig_spec(nx2 as int, term as int, j as int, fuel as nat) == Some(
                v as int,
            ) && v > i128::MIN,
            None => ser_trig_spec(nx2 as int, term as int, j as int, fuel as nat) is None,
        },
    decreases fuel,
{
    if fuel == 0 {
        Some(0)
    } else if j > 100 {
        None
    } else {
        proof {
            assert(1 <= j * (j + 1) <= 10100) by (nonlinear_arith)
                requires
                    1 <= j <= 100,
            ;
        }
        match fmul(term, nx2) {
            None => None,
            Some(p) => {
                let nt = idiv(p, j * (j + 1));
                match ser_trig(nx2, nt, j + 2, fuel - 1) {
                    None => None,
                    Some(rest) => cadd(term, rest),
                }
            },
        }
    }
}

/// Reduce an angle into `[-pi, pi]`, up to the constants' precision.
pub open spec fn red_angle_spec(x: int) -> Option<int> {
    let k = idiv_spec(x, 6_283_185_307_179);
    match cmul_spec(k, 6_283_185_307_179) {
        None => None,
        Some(kk) => match cadd_spec(x, -kk) {
            None => None,
            Some(r0) => {
                let r1 = if r0 > 3_141_592_653_589 {
                    r0 - 6_283_185_307_179
                } else if r0 < -3_141_592_653_589 {
                    r0 + 6_283_185_307_179
                } else {
                    r0
                };
                Some(r1)
            },
        },
    }
}

pub fn red_angle(x: i128) -> (r: Option<i128>)
    requires
        x > i128::MIN,
    ensures
        match r {
            Some(v) => red_angle_spec(x as int) == Some(v as int) && v > i128::MIN
                && -6_283_185_307_180 < v < 6_283_185_307_180,
            None => red_angle_spec(x as int) is None,
        },
{
    let k = idiv(x, TWO_PI_FIX);
    match cmul(k, TWO_PI_FIX) {
        None => None,
        Some(kk) => match cadd(x, -kk) {
            None => None,
            Some(r0) => {
                proof {
                    vstd::arithmetic::div_mod::lemma_fundamental_div_mod(
                        absi(x as int),
                        6_283_185_307_179,
                    );
                    vstd::arithmetic::div_mod::lemma_mod_division_less_than_divisor(
                        absi(x as int),
                        6_283_185_307_179,
                    );
                    vstd::arithmetic::div_mod::lemma_div_pos_is_pos(
                        absi(x as int),
                        6_283_185_307_179,
                    );
                }
                let r1 = if r0 > PI_FIX {
                    r0 - TWO_PI_FIX
                } else if r0 < -PI_FIX {
                    r0 + TWO_PI_FIX
                } else {
                    r0
                };
                Some(r1)
            },
        },
    }
}

/// Sine on fixed-point after angle reduction.
pub open spec fn sin_fix_spec(x: int) -> Option<int> {
    match red_angle_spec(x) {
        None => None,
        Some(r) => match fmul_spec(r, r) {
            None => None,
            Some(x2) => ser_trig_spec(-x2, r, 2, 12),
        },
    }
}

pub fn sin_fix(x: i128) -> (r: Option<i128>)
    requires
        x > i128::MIN,
    ensures
        match r {
            Some(v) => sin_fix_spec(x as int) == Some(v as int) && v > i128::MIN,
            None => sin_fix_spec(x as int) is None,
        },
{
    match red_angle(x) {
        None => None,
        Some(rr) => match fmul(rr, rr) {
            None => None,
            Some(x2) => ser_trig(-x2, rr, 2, 12),
        },
    }
}

/// Cosine on fixed-point after angle reduction.
pub open spec fn cos_fix_spec(x: int) -> Option<int> {
    match red_angle_spec(x) {
        None => None,
        Some(r) => match fmul_spec(r, r) {
            None => None,
            Some(x2) => ser_trig_spec(-x2, 1_000_000_000_000, 1, 12),
        },
    }
}

pub fn cos_fix(x: i128) -> (r: Option<i128>)
    requires
        x > i128::MIN,
    ensures
        match r {
            Some(v) => cos_fix_spec(x as int) == Some(v as int) && v > i128::MIN,
            None => cos_fix_spec(x as int) is None,
        },
{
    match red_angle(x) {
        None => None,
        Some(rr) => match fmul(rr, rr) {
            None => None,
            Some(x2) => ser_trig(-x2, FIX, 1, 12),
        },
    }
}

/// Square root on fixed-point: `isqrt(v * FIX)`.
pub open spec fn sqrt_fix_spec(v: int) -> Option<int> {
    if v < 0 {
        None
    } else if v * 1_000_000_000_000 > 0xffff_ffff_ffff_ffff_ffff_ffff_ffff_ffff {
        None
    } else {
        Some(isqrt_spec(v * 1_000_000_000_000))
    }
}

pub fn sqrt_fix(v: i128) -> (r: Option<i128>)
    ensures
        match r {
            Some(w) => sqrt_fix_spec(v as int) == Some(w as int) && 0 <= w,
            None => sqrt_fix_spec(v as int) is None,
        },
{
    if v < 0 {
        None
    } else {
        match (v as u128).checked_mul(FIX as u128) {
            None => None,
            Some(m) => {
                let w = isqrt(m);
                proof {
                    assert((w as int) * (w as int) <= m as int);
                    assert(w < 0x7fff_ffff_ffff_ffff_ffff_ffff_ffff_ffff) by (nonlinear_arith)
                        requires
                            (w as int) * (w as int) <= m as int,
                            m <= 0xffff_ffff_ffff_ffff_ffff_ffff_ffff_ffff,
                            w >= 0,
                    ;
                }
                Some(w as i128)
            },
        }
    }
}

/// Arctangent for `|x| <= 1`: two argument halvings, then the odd
/// series, then times four.
pub open spec fn atan_small_spec(x: int) -> Option<int> {
    match half_arg_spec(x) {
        None => None,
        Some(x1) => match half_arg_spec(x1) {
            None => None,
            Some(t) => match fmul_spec(t, t) {
                None => None,
                Some(t2) => match ser_odd_spec(-t2, t, 1, 13) {
                    None => None,
                    Some(s) => cmul_spec(4, s),
                },
            },
        },
    }
}

/// `x / (1 + sqrt(1 + x^2))`, which halves the arctangent.
pub open spec fn half_arg_spec(x: int) -> Option<int> {
    match fmul_spec(x, x) {
        None => None,
        Some(x2) => match cadd_spec(1_000_000_000_000, x2) {
            None => None,
            Some(s) => match sqrt_fix_spec(s) {
                None => None,
                Some(q) => match cadd_spec(1_000_000_000_000, q) {
                    None => None,
                    Some(den) => fdiv_spec(x, den),
                },
            },
        },
    }
}

fn half_arg(x: i128) -> (r: Option<i128>)
    requires
        x > i128::MIN,
    ensures
        match r {
            Some(v) => half_arg_spec(x as int) == Some(v as int) && v > i128::MIN,
            None => half_arg_spec(x as int) is None,
        },
{
    match fmul(x, x) {
        None => None,
        Some(x2) => match cadd(FIX, x2) {
            None => None,
            Some(s) => match sqrt_fix(s) {
                None => None,
                Some(q) => match cadd(FIX, q) {
                    None => None,
                    Some(den) => fdiv(x, den),
                },
            },
        },
    }
}

fn atan_small(x: i128) -> (r: Option<i128>)
    requires
        x > i128::MIN,
    ensures
        match r {
            Some(v) => atan_small_spec(x as int) == Some(v as int) && v > i128::MIN,
            None => atan_small_spec(x as int) is None,
        },
{
    match half_arg(x) {
        None => None,
        Some(x1) => match half_arg(x1) {
            None => None,
            Some(t) => match fmul(t, t) {
                None => None,
                Some(t2) => match ser_odd(-t2, t, 1, 13) {
                    None => None,
                    Some(s) => cmul(4, s),
                },
            },
        },
    }
}

/// Arctangent over the whole line, via the reciprocal identity for
/// `|x| > 1`.
pub open spec fn atan_fix_spec(x: int) -> Option<int> {
    if -1_000_000_000_000 <= x <= 1_000_000_000_000 {
        atan_small_spec(x)
    } else {
        match fdiv_spec(1_000_000_000_000, x) {
            None => None,
            Some(t) => match atan_small_spec(t) {
                None => None,
                Some(a) => if x > 0 {
                    cadd_spec(1_570_796_326_794, -a)
                } else {
                    cadd_spec(-1_570_796_326_794, -a)
                },
            },
        }
    }
}

pub fn atan_fix(x: i128) -> (r: Option<i128>)
    requires
        x > i128::MIN,
    ensures
        match r {
            Some(v) => atan_fix_spec(x as int) == Some(v as int) && v > i128::MIN,
            None => atan_fix_spec(x as int) is None,
        },
{
    if -FIX <= x && x <= FIX {
        atan_small(x)
    } else {
        match fdiv(FIX, x) {
            None => None,
            Some(t) => match atan_small(t) {
                None => None,
                Some(a) => if x > 0 {
                    cadd(PI_HALF_FIX, -a)
                } else {
                    cadd(-PI_HALF_FIX, -a)
                },
            },
        }
    }
}

/// Exact truncation of a rational to the fixed-point scale.
pub open spec fn to_fix_spec(n: int, d: int) -> int {
    idiv_spec(n * 1_000_000_000_000, d)
}

pub fn to_fix(q: &Num) -> (v: i128)
    requires
        q.wf(),
    ensures
        v as int == to_fix_spec(q.ni(), q.di()),
        v > i128::MIN,
{
    let (n, d) = q.parts();
    proof {
        crate::num::lemma_mag_prod(q.ni(), 1_000_000_000_000);
    }
    idiv(n as i128 * FIX, d as i128)
}

/// A fixed-point value as a rational.
pub open spec fn from_fix_spec(v: int) -> Option<(int, int)> {
    reduce_spec(v, 1_000_000_000_000)
}

pub fn from_fix(v: i128) -> (r: Option<Num>)
    requires
        v > i128::MIN,
    ensures
        match r {
            Some(q) => q.wf() && from_fix_spec(v as int) == Some((q.ni(), q.di())),
            None => from_fix_spec(v as int) is None,
        },
{
    reduce(v, FIX)
}

} // verus!
