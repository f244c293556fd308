//! Exact rational numbers.
//!
//! Every `Number` value of the formula language is a rational `n / d`
//! held in lowest terms with `1 <= d` and `|n| <= i64::MAX`.  All
//! arithmetic is exact; an operation whose reduced result does not fit
//! in these bounds reports `None`, which the evaluator turns into the
//! `Null` domain value.

use vstd::prelude::*;

verus! {

/// Magnitude bound for both numerator and denominator: `i64::MAX`.
/// `i64::MIN` is excluded so that negation never overflows.
pub open spec fn in_mag(x: int) -> bool {
    -0x7fff_ffff_ffff_ffff <= x <= 0x7fff_ffff_ffff_ffff
}

pub open spec fn abs_int(x: int) -> int {
    if x < 0 {
        -x
    } else {
        x
    }
}

pub open spec fn gcd_nat(a: nat, b: nat) -> nat
    decreases b,
{
    if b == 0 {
        a
    } else {
        gcd_nat(b, a % b)
    }
}

/// `gcd_nat` divides both arguments and is positive when either is.
pub proof fn lemma_gcd_props(a: int, b: int)
    requires
        0 <= a,
        0 <= b,
    ensures
        b > 0 ==> gcd_nat(a as nat, b as nat) > 0,
        a > 0 && b == 0 ==> gcd_nat(a as nat, b as nat) > 0,
        gcd_nat(a as nat, b as nat) > 0 ==> a % (gcd_nat(a as nat, b as nat) as int) == 0,
        gcd_nat(a as nat, b as nat) > 0 ==> b % (gcd_nat(a as nat, b as nat) as int) == 0,
    decreases b,
{
    if b == 0 {
        if a > 0 {
            vstd::arithmetic::div_mod::lemma_mod_self_0(a);
        }
    } else {
        assert(a as nat % b as nat == (a % b) as nat);
        vstd::arithmetic::div_mod::lemma_mod_division_less_than_divisor(a, b);
        lemma_gcd_props(b, a % b);
        let g = gcd_nat(b as nat, (a % b) as nat) as int;
        assert(gcd_nat(a as nat, b as nat) == g);
        if g > 0 {
            // a = b * (a / b) + a % b; both summands vanish mod g
            vstd::arithmetic::div_mod::lemma_fundamental_div_mod(a, b);
            lemma_sum_of_multiples_mod(a / b, b, a % b, g);
            assert(a == (a / b) * b + a % b) by (nonlinear_arith)
                requires
                    a == b * (a / b) + a % b,
            ;
        }
    }
}

/// If `g` divides `b` and `r`, it divides `q * b + r`.
proof fn lemma_sum_of_multiples_mod(q: int, b: int, r: int, g: int)
    requires
        g > 0,
        b % g == 0,
        r % g == 0,
    ensures
        (q * b + r) % g == 0,
{
    let kb = b / g;
    let kr = r / g;
    vstd::arithmetic::div_mod::lemma_fundamental_div_mod(b, g);
    vstd::arithmetic::div_mod::lemma_fundamental_div_mod(r, g);
    assert(q * b + r == (q * kb + kr) * g) by (nonlinear_arith)
        requires
            b == g * kb + 0,
            r == g * kr + 0,
    ;
    vstd::arithmetic::div_mod::lemma_mod_multiples_basic(q * kb + kr, g);
}

/// A positive divisor of a positive number is no larger than it.
pub proof fn lemma_divisor_le(x: int, g: int)
    requires
        1 <= g,
        1 <= x,
        x % g == 0,
    ensures
        g <= x,
        1 <= x / g,
        (x / g) * g == x,
{
    vstd::arithmetic::div_mod::lemma_fundamental_div_mod(x, g);
    let q = x / g;
    vstd::arithmetic::div_mod::lemma_div_pos_is_pos(x, g);
    assert(x == g * q);
    if q == 0 {
        assert(x == 0) by (nonlinear_arith)
            requires
                x == g * q,
                q == 0,
        ;
    }
    assert(g <= x && q * g == x) by (nonlinear_arith)
        requires
            x == g * q,
            q >= 1,
            g >= 1,
    ;
}

/// Quotient after dividing out a common divisor keeps the ratio:
/// if `g` divides `x` then `(x / g) * g == x`.
pub proof fn lemma_exact_div(x: int, g: int)
    requires
        0 < g,
        0 <= x,
        x % g == 0,
    ensures
        (x / g) * g == x,
        0 <= x / g,
{
    vstd::arithmetic::div_mod::lemma_fundamental_div_mod(x, g);
    vstd::arithmetic::div_mod::lemma_div_pos_is_pos(x, g);
    assert((x / g) * g == x) by (nonlinear_arith)
        requires
            x == g * (x / g) + 0,
    ;
}

/// The reduced form of `n / d` (with `d >= 1`), or `None` when the
/// reduced numerator or denominator falls outside the magnitude bound.
pub open spec fn reduce_spec(n: int, d: int) -> Option<(int, int)> {
    let g = gcd_nat(abs_int(n) as nat, d as nat) as int;
    let qa = abs_int(n) / g;
    let qd = d / g;
    let qn = if n < 0 {
        -qa
    } else {
        qa
    };
    if qa <= 0x7fff_ffff_ffff_ffff && 1 <= qd <= 0x7fff_ffff_ffff_ffff {
        Some((qn, qd))
    } else {
        None
    }
}

/// The reduced form names the same rational: `qn * d == n * qd`.
pub proof fn lemma_reduce_spec_ratio(n: int, d: int)
    requires
        1 <= d,
        reduce_spec(n, d) is Some,
    ensures
        reduce_spec(n, d)->Some_0.0 * d == n * reduce_spec(n, d)->Some_0.1,
        1 <= reduce_spec(n, d)->Some_0.1,
{
    let a = abs_int(n);
    let g = gcd_nat(a as nat, d as nat) as int;
    lemma_gcd_props(a, d);
    let qa = a / g;
    let qd = d / g;
    lemma_exact_div(a, g);
    lemma_divisor_le(d, g);
    // qa * d == a * qd, since both equal qa * qd * g
    assert(qa * d == a * qd) by (nonlinear_arith)
        requires
            qa * g == a,
            qd * g == d,
    ;
    if n < 0 {
        assert((-qa) * d == n * qd) by (nonlinear_arith)
            requires
                qa * d == a * qd,
                a == -n,
        ;
    }
}

/// An exact rational number: `n / d`, `1 <= d`, magnitudes within
/// `i64::MAX`, kept in lowest terms by every constructor.
#[derive(Debug, Clone, Copy, PartialEq, Eq)]
pub struct Num {
    n: i64,
    d: i64,
}

impl Num {
    /// Numerator, for specifications.
    pub closed spec fn ni(&self) -> int {
        self.n as int
    }

    /// Denominator, for specifications.
    pub closed spec fn di(&self) -> int {
        self.d as int
    }

    /// Well-formedness: positive denominator, magnitudes in bounds.
    pub open spec fn wf(&self) -> bool {
        1 <= self.di() <= 0x7fff_ffff_ffff_ffff && in_mag(self.ni())
    }

    /// Exact value of an integer.
    pub fn from_int(i: i64) -> (r: Option<Num>)
        ensures
            i != i64::MIN ==> (r matches Some(q) && q.wf() && q.ni() == i && q.di() == 1),
            i == i64::MIN ==> r is None,
    {
        if i == i64::MIN {
            None
        } else {
            Some(Num { n: i, d: 1 })
        }
    }

    /// Exact rational `n / d`; `None` when `d == 0`, when a magnitude
    /// is `i64::MIN`, or when the reduced form does not fit.
    pub fn new(n: i64, d: i64) -> (r: Option<Num>)
        ensures
            r matches Some(q) ==> q.wf() && d != 0 && q.ni() * d == n * q.di(),
            n != i64::MIN && d != 0 && d != i64::MIN ==> r is Some,
    {
        if n == i64::MIN || d == 0 || d == i64::MIN {
            None
        } else {
            let (sn, sd): (i64, i64) = if d < 0 { (-n, -d) } else { (n, d) };
            let r = reduce(sn as i128, sd as i128);
            proof {
                reduce_fits(sn as int, sd as int);
                lemma_reduce_spec_ratio(sn as int, sd as int);
                if d < 0 {
                    let q = reduce_spec(sn as int, sd as int)->Some_0;
                    assert(q.0 * d == n * q.1) by (nonlinear_arith)
                        requires
                            q.0 * (sd as int) == (sn as int) * q.1,
                            sn as int == -(n as int),
                            sd as int == -(d as int),
                    ;
                }
            }
            r
        }
    }

    /// The exact value of the 64-bit-float constant for the circle
    /// ratio: `884279719003555 / 2^48`.
    pub fn pi() -> (r: Num)
        ensures
            r.wf(),
            r.ni() == 884279719003555,
            r.di() == 0x1_0000_0000_0000,
    {
        Num { n: 884279719003555, d: 0x1_0000_0000_0000 }
    }

    /// Half the circle-ratio constant: `884279719003555 / 2^49`.
    pub fn pi_half() -> (r: Num)
        ensures
            r.wf(),
            r.ni() == 884279719003555,
            r.di() == 0x2_0000_0000_0000,
    {
        Num { n: 884279719003555, d: 0x2_0000_0000_0000 }
    }

    /// A small integer constant.
    pub fn int_c(i: i64) -> (r: Num)
        requires
            i != i64::MIN,
        ensures
            r.wf(),
            r.ni() == i,
            r.di() == 1,
    {
        Num { n: i, d: 1 }
    }

    /// Exec accessor pair, for callers outside the crate.
    pub fn parts(&self) -> (r: (i64, i64))
        ensures
            r.0 as int == self.ni(),
            r.1 as int == self.di(),
    {
        (self.n, self.d)
    }
}

/// Reduction of small inputs never misses: if `|n| <= i64::MAX` and
/// `1 <= d <= i64::MAX` then `reduce_spec` is `Some`.
pub proof fn reduce_fits(n: int, d: int)
    requires
        in_mag(n),
        1 <= d <= 0x7fff_ffff_ffff_ffff,
    ensures
        reduce_spec(n, d) is Some,
{
    let a = abs_int(n);
    let g = gcd_nat(a as nat, d as nat) as int;
    lemma_gcd_props(a, d);
    lemma_divisor_le(d, g);
    if a > 0 {
        lemma_divisor_le(a, g);
        vstd::arithmetic::div_mod::lemma_div_nonincreasing(a, g);
    } else {
        assert(a / g == 0) by {
            vstd::arithmetic::div_mod::lemma_div_of0(g);
        }
    }
    vstd::arithmetic::div_mod::lemma_div_nonincreasing(d, g);
    vstd::arithmetic::div_mod::lemma_div_pos_is_pos(d, g);
}

/// Bounds of a product of two magnitudes within `i64::MAX`.
pub proof fn lemma_mag_prod(x: int, y: int)
    requires
        -0x7fff_ffff_ffff_ffff <= x <= 0x7fff_ffff_ffff_ffff,
        -0x7fff_ffff_ffff_ffff <= y <= 0x7fff_ffff_ffff_ffff,
    ensures
        -0x3fff_ffff_ffff_ffff_0000_0000_0000_0001 <= x * y
            <= 0x3fff_ffff_ffff_ffff_0000_0000_0000_0001,
        x >= 1 && y >= 1 ==> x * y >= 1,
        x >= 0 && y >= 0 ==> x * y >= 0,
        x != 0 && y != 0 ==> x * y != 0,
{
    assert((-0x3fff_ffff_ffff_ffff_0000_0000_0000_0001 <= x * y
        <= 0x3fff_ffff_ffff_ffff_0000_0000_0000_0001) && (x >= 1 && y >= 1 ==> x * y >= 1) && (x
        >= 0 && y >= 0 ==> x * y >= 0) && (x != 0 && y != 0 ==> x * y != 0)) by (nonlinear_arith)
        requires
            -0x7fff_ffff_ffff_ffff <= x <= 0x7fff_ffff_ffff_ffff,
            -0x7fff_ffff_ffff_ffff <= y <= 0x7fff_ffff_ffff_ffff,
    ;
}

/// Sum of two rationals, reduced: `a/b + c/e = (a*e + c*b) / (b*e)`.
pub open spec fn rat_add_spec(an: int, ad: int, bn: int, bd: int) -> Option<(int, int)> {
    reduce_spec(an * bd + bn * ad, ad * bd)
}

pub open spec fn rat_sub_spec(an: int, ad: int, bn: int, bd: int) -> Option<(int, int)> {
    reduce_spec(an * bd - bn * ad, ad * bd)
}

pub open spec fn rat_mul_spec(an: int, ad: int, bn: int, bd: int) -> Option<(int, int)> {
    reduce_spec(an * bn, ad * bd)
}

/// Quotient `a / b` for `bn != 0`, denominator made positive first.
pub open spec fn rat_div_spec(an: int, ad: int, bn: int, bd: int) -> Option<(int, int)> {
    if bn < 0 {
        reduce_spec(-(an * bd), ad * -bn)
    } else {
        reduce_spec(an * bd, ad * bn)
    }
}

/// Remainder with the sign of the dividend, as `%` on doubles has:
/// `a - b * trunc(a / b)`, expressed on the common denominator.
pub open spec fn rat_rem_spec(an: int, ad: int, bn: int, bd: int) -> Option<(int, int)> {
    let x = an * bd;
    let y = bn * ad;
    let m = abs_int(x) % abs_int(y);
    let r = if x < 0 {
        -m
    } else {
        m
    };
    reduce_spec(r, ad * bd)
}

pub open spec fn rat_eq_spec(an: int, ad: int, bn: int, bd: int) -> bool {
    an * bd == bn * ad
}

/// The not-equal comparison uses an absolute epsilon of `1e-7`:
/// `|a - b| > 1e-7`, cross-multiplied to stay in integers.
pub open spec fn rat_ne_eps_spec(an: int, ad: int, bn: int, bd: int) -> bool {
    abs_int(an * bd - bn * ad) * 10_000_000 > ad * bd
}

pub open spec fn rat_lt_spec(an: int, ad: int, bn: int, bd: int) -> bool {
    an * bd < bn * ad
}

/// Truncation toward zero of `n / d`.
pub open spec fn rat_trunc_spec(n: int, d: int) -> int {
    if n < 0 {
        -(abs_int(n) / d)
    } else {
        n / d
    }
}

impl Num {
    /// Exact sum; `None` when the reduced result does not fit.
    pub fn add_q(&self, o: &Num) -> (r: Option<Num>)
        requires
            self.wf(),
            o.wf(),
        ensures
            match r {
                Some(q) => q.wf() && rat_add_spec(self.ni(), self.di(), o.ni(), o.di()) == Some(
                    (q.ni(), q.di()),
                ) && q.ni() * (self.di() * o.di()) == (self.ni() * o.di() + o.ni() * self.di())
                    * q.di(),
                None => rat_add_spec(self.ni(), self.di(), o.ni(), o.di()) is None,
            },
    {
        proof {
            lemma_mag_prod(self.ni(), o.di());
            lemma_mag_prod(o.ni(), self.di());
            lemma_mag_prod(self.di(), o.di());
        }
        let n: i128 = self.n as i128 * o.d as i128 + o.n as i128 * self.d as i128;
        let d: i128 = self.d as i128 * o.d as i128;
        let r = reduce(n, d);
        proof {
            if r is Some {
                lemma_reduce_spec_ratio(n as int, d as int);
            }
        }
        r
    }

    /// Exact difference.
    pub fn sub_q(&self, o: &Num) -> (r: Option<Num>)
        requires
            self.wf(),
            o.wf(),
        ensures
            match r {
                Some(q) => q.wf() && rat_sub_spec(self.ni(), self.di(), o.ni(), o.di()) == Some(
                    (q.ni(), q.di()),
                ) && q.ni() * (self.di() * o.di()) == (self.ni() * o.di() - o.ni() * self.di())
                    * q.di(),
                None => rat_sub_spec(self.ni(), self.di(), o.ni(), o.di()) is None,
            },
    {
        proof {
            lemma_mag_prod(self.ni(), o.di());
            lemma_mag_prod(o.ni(), self.di());
            lemma_mag_prod(self.di(), o.di());
        }
        let n: i128 = self.n as i128 * o.d as i128 - o.n as i128 * self.d as i128;
        let d: i128 = self.d as i128 * o.d as i128;
        let r = reduce(n, d);
        proof {
            if r is Some {
                lemma_reduce_spec_ratio(n as int, d as int);
            }
        }
        r
    }

    /// Exact product.
    pub fn mul_q(&self, o: &Num) -> (r: Option<Num>)
        requires
            self.wf(),
            o.wf(),
        ensures
            match r {
                Some(q) => q.wf() && rat_mul_spec(self.ni(), self.di(), o.ni(), o.di()) == Some(
                    (q.ni(), q.di()),
                ) && q.ni() * (self.di() * o.di()) == (self.ni() * o.ni()) * q.di(),
                None => rat_mul_spec(self.ni(), self.di(), o.ni(), o.di()) is None,
            },
    {
        proof {
            lemma_mag_prod(self.ni(), o.ni());
            lemma_mag_prod(self.di(), o.di());
        }
        let n: i128 = self.n as i128 * o.n as i128;
        let d: i128 = self.d as i128 * o.d as i128;
        let r = reduce(n, d);
        proof {
            if r is Some {
                lemma_reduce_spec_ratio(n as int, d as int);
            }
        }
        r
    }

    /// Exact quotient; the caller must rule out a zero divisor.
    pub fn div_q(&self, o: &Num) -> (r: Option<Num>)
        requires
            self.wf(),
            o.wf(),
            o.ni() != 0,
        ensures
            match r {
                Some(q) => q.wf() && rat_div_spec(self.ni(), self.di(), o.ni(), o.di()) == Some(
                    (q.ni(), q.di()),
                ) && q.ni() * (self.di() * o.ni()) == (self.ni() * o.di()) * q.di(),
                None => rat_div_spec(self.ni(), self.di(), o.ni(), o.di()) is None,
            },
    {
        proof {
            lemma_mag_prod(self.ni(), o.di());
            lemma_mag_prod(self.di(), o.ni());
            lemma_mag_prod(self.di(), -o.ni());
        }
        let n: i128 = self.n as i128 * o.d as i128;
        let d: i128 = self.d as i128 * o.n as i128;
        proof {
            assert(self.di() * -o.ni() == -(self.di() * o.ni()) && ((self.di() * o.ni() < 0)
                <==> (o.ni() < 0))) by (nonlinear_arith)
                requires
                    self.di() >= 1,
                    o.ni() != 0,
            ;
        }
        let (sn, sd): (i128, i128) = if d < 0 {
            (-n, -d)
        } else {
            (n, d)
        };
        let r = reduce(sn, sd);
        proof {
            if r is Some {
                lemma_reduce_spec_ratio(sn as int, sd as int);
                if d < 0 {
                    let q = r->Some_0;
                    assert(q.ni() * (self.di() * o.ni()) == (self.ni() * o.di()) * q.di())
                        by (nonlinear_arith)
                        requires
                            q.ni() * (sd as int) == (sn as int) * q.di(),
                            sn as int == -(n as int),
                            sd as int == -(d as int),
                            n as int == self.ni() * o.di(),
                            d as int == self.di() * o.ni(),
                    ;
                }
            }
        }
        r
    }

    /// Remainder with the sign of the dividend, as `%` on doubles.
    pub fn rem_q(&self, o: &Num) -> (r: Option<Num>)
        requires
            self.wf(),
            o.wf(),
            o.ni() != 0,
        ensures
            match r {
                Some(q) => q.wf() && rat_rem_spec(self.ni(), self.di(), o.ni(), o.di()) == Some(
                    (q.ni(), q.di()),
                ),
                None => rat_rem_spec(self.ni(), self.di(), o.ni(), o.di()) is None,
            },
    {
        proof {
            lemma_mag_prod(self.ni(), o.di());
            lemma_mag_prod(o.ni(), self.di());
            lemma_mag_prod(self.di(), o.di());
        }
        let x: i128 = self.n as i128 * o.d as i128;
        let y: i128 = o.n as i128 * self.d as i128;
        let xa: u128 = if x < 0 {
            (-x) as u128
        } else {
            x as u128
        };
        let ya: u128 = if y < 0 {
            (-y) as u128
        } else {
            y as u128
        };
        let m: u128 = xa % ya;
        let rn: i128 = if x < 0 {
            -(m as i128)
        } else {
            m as i128
        };
        let d: i128 = self.d as i128 * o.d as i128;
        let r = reduce(rn, d);
        r
    }

    /// Negation; exact, always fits.
    pub fn neg_q(&self) -> (r: Num)
        requires
            self.wf(),
        ensures
            r.wf(),
            r.ni() == -self.ni(),
            r.di() == self.di(),
    {
        Num { n: -self.n, d: self.d }
    }

    /// Absolute value; exact, always fits.
    pub fn abs_q(&self) -> (r: Num)
        requires
            self.wf(),
        ensures
            r.wf(),
            r.ni() == abs_int(self.ni()),
            r.di() == self.di(),
    {
        if self.n < 0 {
            Num { n: -self.n, d: self.d }
        } else {
            Num { n: self.n, d: self.d }
        }
    }

    /// Sign: `-1`, `0` or `1` over denominator `1`.
    pub fn sign_q(&self) -> (r: Num)
        requires
            self.wf(),
        ensures
            r.wf(),
            r.di() == 1,
            r.ni() == if self.ni() < 0 {
                -1int
            } else if self.ni() == 0 {
                0int
            } else {
                1int
            },
    {
        let s: i64 = if self.n < 0 {
            -1
        } else if self.n == 0 {
            0
        } else {
            1
        };
        Num { n: s, d: 1 }
    }

    /// Exact equality of the rationals named.
    pub fn eq_q(&self, o: &Num) -> (r: bool)
        requires
            self.wf(),
            o.wf(),
        ensures
            r == rat_eq_spec(self.ni(), self.di(), o.ni(), o.di()),
    {
        proof {
            lemma_mag_prod(self.ni(), o.di());
            lemma_mag_prod(o.ni(), self.di());
        }
        self.n as i128 * o.d as i128 == o.n as i128 * self.d as i128
    }

    /// `|self - o| > 1e-7`, the epsilon-based not-equal comparison.
    pub fn ne_eps_q(&self, o: &Num) -> (r: bool)
        requires
            self.wf(),
            o.wf(),
        ensures
            r == rat_ne_eps_spec(self.ni(), self.di(), o.ni(), o.di()),
    {
        proof {
            lemma_mag_prod(self.ni(), o.di());
            lemma_mag_prod(o.ni(), self.di());
            lemma_mag_prod(self.di(), o.di());
        }
        let diff: i128 = self.n as i128 * o.d as i128 - o.n as i128 * self.d as i128;
        let mag: u128 = if diff < 0 {
            (-diff) as u128
        } else {
            diff as u128
        };
        let dd: i128 = self.d as i128 * o.d as i128;
        proof {
            lemma_mag_prod(self.di(), o.di());
        }
        if mag >= 0x80_0000_0000_0000_0000_0000_0000u128 {
            proof {
                assert(mag * 10_000_000 > dd) by (nonlinear_arith)
                    requires
                        mag >= 0x80_0000_0000_0000_0000_0000_0000,
                        0 < dd < 0x4000_0000_0000_0000_0000_0000_0000_0000,
                ;
            }
            true
        } else {
            proof {
                assert(mag * 10_000_000 < 0x8000_0000_0000_0000_0000_0000_0000_0000u128)
                    by (nonlinear_arith)
                    requires
                        mag < 0x80_0000_0000_0000_0000_0000_0000,
                ;
            }
            mag * 10_000_000 > dd as u128
        }
    }

    /// Strictly-less comparison of the rationals named.
    pub fn lt_q(&self, o: &Num) -> (r: bool)
        requires
            self.wf(),
            o.wf(),
        ensures
            r == rat_lt_spec(self.ni(), self.di(), o.ni(), o.di()),
    {
        proof {
            lemma_mag_prod(self.ni(), o.di());
            lemma_mag_prod(o.ni(), self.di());
        }
        (self.n as i128 * o.d as i128) < (o.n as i128 * self.d as i128)
    }

    /// Truncation toward zero, as casting a double to an integer does.
    pub fn trunc_q(&self) -> (r: i64)
        requires
            self.wf(),
        ensures
            r as int == rat_trunc_spec(self.ni(), self.di()),
            in_mag(r as int),
    {
        let a: u64 = if self.n < 0 {
            (-self.n) as u64
        } else {
            self.n as u64
        };
        let q: u64 = a / self.d as u64;
        proof {
            vstd::arithmetic::div_mod::lemma_div_nonincreasing(a as int, self.di());
            vstd::arithmetic::div_mod::lemma_div_pos_is_pos(a as int, self.di());
        }
        if self.n < 0 {
            -(q as i64)
        } else {
            q as i64
        }
    }

    /// True when the value is a whole number.
    pub fn is_integer(&self) -> (r: bool)
        requires
            self.wf(),
        ensures
            r == (self.di() == 1),
    {
        self.d == 1
    }
}

fn gcd_u128(a: u128, b: u128) -> (g: u128)
    ensures
        g as nat == gcd_nat(a as nat, b as nat),
    decreases b,
{
    if b == 0 {
        a
    } else {
        gcd_u128(b, a % b)
    }
}

/// Reduce `n / d` (with `d >= 1`) to lowest terms as a `Num`;
/// `None` exactly when `reduce_spec` says the result does not fit.
pub fn reduce(n: i128, d: i128) -> (r: Option<Num>)
    requires
        1 <= d,
        -0x7fff_ffff_ffff_ffff_ffff_ffff_ffff_ffff <= n,
    ensures
        match r {
            Some(q) => q.wf() && reduce_spec(n as int, d as int) == Some((q.ni(), q.di())),
            None => reduce_spec(n as int, d as int) is None,
        },
{
    let neg: bool = n < 0;
    let a: u128 = if neg {
        (-n) as u128
    } else {
        n as u128
    };
    let g: u128 = gcd_u128(a, d as u128);
    proof {
        lemma_gcd_props(a as int, d as int);
        lemma_divisor_le(d as int, g as int);
        if a > 0 {
            lemma_divisor_le(a as int, g as int);
        } else {
            vstd::arithmetic::div_mod::lemma_div_of0(g as int);
        }
    }
    let qa: u128 = a / g;
    let qd: u128 = (d as u128) / g;
    if qa > 0x7fff_ffff_ffff_ffff || qd > 0x7fff_ffff_ffff_ffff {
        None
    } else {
        let nn: i64 = if neg {
            -(qa as i64)
        } else {
            qa as i64
        };
        Some(Num { n: nn, d: qd as i64 })
    }
}

} // verus!
