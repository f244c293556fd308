//! Decimal text: numeric literals to rationals.
//!
//! A literal is converted to the exact rational it names; only
//! fractional digits past eighteen significant places are dropped.

use crate::num::reduce;
use crate::num::reduce_fits;
use crate::num::reduce_spec;
use crate::num::Num;
use crate::parse::is_digit_char;
use crate::parse::seg;
use vstd::prelude::*;

verus! {

pub open spec fn pow10_spec(k: nat) -> int
    decreases k,
{
    if k == 0 {
        1
    } else {
        10 * pow10_spec((k - 1) as nat)
    }
}

/// `10^a <= 10^b` when `a <= b`.
pub proof fn lemma_pow10_le(a: nat, b: nat)
    requires
        a <= b,
    ensures
        pow10_spec(a) <= pow10_spec(b),
        1 <= pow10_spec(a),
    decreases b,
{
    if b > 0 {
        if a == b {
            lemma_pow10_le((a - 1) as nat, (b - 1) as nat);
        } else {
            lemma_pow10_le(a, (b - 1) as nat);
        }
    }
}

/// Numeric values of the small powers of ten.
pub proof fn lemma_pow10_vals()
    ensures
        pow10_spec(17) == 0x16345785d8a0000,
        pow10_spec(18) == 0xde0b6b3a7640000,
{
    reveal_with_fuel(pow10_spec, 19);
}

/// `10^k` for `k <= 18`.
pub fn pow10(k: usize) -> (r: u64)
    requires
        k <= 18,
    ensures
        r as int == pow10_spec(k as nat),
        1 <= r <= 1_000_000_000_000_000_000,
    decreases k,
{
    proof {
        lemma_pow10_vals();
        lemma_pow10_le(k as nat, 18);
    }
    if k == 0 {
        1
    } else {
        proof {
            lemma_pow10_le((k - 1) as nat, 17);
        }
        10 * pow10(k - 1)
    }
}

/// Value of a run of decimal digits.
pub open spec fn digits_val(s: Seq<char>) -> int
    decreases s.len(),
{
    if s.len() == 0 {
        0
    } else {
        10 * digits_val(s.drop_last()) + (s.last() as u32 - 48)
    }
}

pub open spec fn all_digits(s: Seq<char>) -> bool {
    forall|i: int| 0 <= i < s.len() ==> is_digit_char(#[trigger] s[i])
}

/// `digits_val` stays below `10^len`.
pub proof fn lemma_digits_val_bound(s: Seq<char>)
    requires
        all_digits(s),
    ensures
        0 <= digits_val(s) < pow10_spec(s.len()),
    decreases s.len(),
{
    if s.len() > 0 {
        assert(all_digits(s.drop_last())) by {
            assert(forall|i: int|
                0 <= i < s.len() - 1 ==> s.drop_last()[i] == #[trigger] s[i]);
        }
        lemma_digits_val_bound(s.drop_last());
        assert(is_digit_char(s.last()));
    }
}

/// Index of the first `.`, or the length when there is none.
pub open spec fn dot_pos(s: Seq<char>) -> int
    decreases s.len(),
{
    if s.len() == 0 {
        0
    } else if s[0] == '.' {
        0
    } else {
        1 + dot_pos(s.drop_first())
    }
}

pub proof fn lemma_dot_pos(s: Seq<char>)
    ensures
        0 <= dot_pos(s) <= s.len(),
        dot_pos(s) < s.len() ==> s[dot_pos(s)] == '.',
        forall|i: int| 0 <= i < dot_pos(s) ==> s[i] != '.',
    decreases s.len(),
{
    if s.len() > 0 && s[0] != '.' {
        lemma_dot_pos(s.drop_first());
        assert forall|i: int| 0 <= i < dot_pos(s) implies s[i] != '.' by {
            if i > 0 {
                assert(s.drop_first()[i - 1] == s[i]);
                assert(s.drop_first()[i - 1] != '.');
            }
        }
    }
}

/// Shape of a numeric literal: optional `-`, digits with at most one
/// `.`, and at least one digit.
pub open spec fn lit_shape(t: Seq<char>) -> bool {
    let b = if t.len() > 0 && t[0] == '-' {
        t.drop_first()
    } else {
        t
    };
    let p = dot_pos(b);
    let ip = b.subrange(0, p);
    let fp = if p < b.len() {
        b.subrange(p + 1, b.len() as int)
    } else {
        Seq::empty()
    };
    all_digits(ip) && all_digits(fp) && ip.len() + fp.len() >= 1
}

/// The exact rational a numeric literal names, with fractional digits
/// past eighteen significant places dropped; `None` when the shape is
/// wrong or the whole part alone exceeds eighteen digits.
pub open spec fn lit_num_spec(t: Seq<char>) -> Option<(int, int)> {
    if !lit_shape(t) {
        None
    } else {
        let neg = t.len() > 0 && t[0] == '-';
        let b = if neg {
            t.drop_first()
        } else {
            t
        };
        let p = dot_pos(b);
        let ip = b.subrange(0, p);
        let fp = if p < b.len() {
            b.subrange(p + 1, b.len() as int)
        } else {
            Seq::empty()
        };
        if ip.len() > 18 {
            None
        } else {
            let keep = if ip.len() + fp.len() <= 18 {
                fp
            } else {
                fp.take(18 - ip.len())
            };
            let mant = digits_val(ip + keep);
            let sm = if neg {
                -mant
            } else {
                mant
            };
            reduce_spec(sm, pow10_spec(keep.len()))
        }
    }
}

fn find_dot(v: &Vec<char>) -> (p: usize)
    ensures
        p as int == dot_pos(v@),
        p <= v@.len(),
{
    let mut p: usize = 0;
    while p < v.len() && v[p] != '.'
        invariant
            0 <= p <= v@.len(),
            forall|i: int| 0 <= i < p ==> v@[i] != '.',
        decreases v@.len() - p,
    {
        p += 1;
    }
    proof {
        lemma_dot_pos(v@);
        if dot_pos(v@) < p {
            assert(v@[dot_pos(v@)] == '.');
        }
        if dot_pos(v@) > p {
            assert(p < v@.len() && v@[p as int] == '.');
        }
    }
    p
}

fn check_digits(v: &Vec<char>) -> (r: bool)
    ensures
        r == all_digits(v@),
{
    let mut i: usize = 0;
    while i < v.len()
        invariant
            0 <= i <= v@.len(),
            forall|j: int| 0 <= j < i ==> is_digit_char(#[trigger] v@[j]),
        decreases v@.len() - i,
    {
        let u = v[i] as u32;
        if !(0x30 <= u && u <= 0x39) {
            proof {
                assert(!is_digit_char(v@[i as int]));
            }
            return false;
        }
        i += 1;
    }
    true
}

/// Value of at most eighteen decimal digits.
pub fn digits_value(v: &Vec<char>) -> (r: u64)
    requires
        all_digits(v@),
        v@.len() <= 18,
    ensures
        r as int == digits_val(v@),
        r <= 1_000_000_000_000_000_000,
{
    let mut mant: u64 = 0;
    let mut k: usize = 0;
    while k < v.len()
        invariant
            0 <= k <= v@.len() <= 18,
            all_digits(v@),
            mant as int == digits_val(v@.take(k as int)),
        decreases v@.len() - k,
    {
        proof {
            assert(all_digits(v@.take(k as int))) by {
                assert(forall|j: int|
                    0 <= j < k ==> v@.take(k as int)[j] == #[trigger] v@[j]);
            }
            lemma_digits_val_bound(v@.take(k as int));
            lemma_pow10_le(k as nat, 17);
            lemma_pow10_vals();
            assert(v@.take(k + 1).drop_last() =~= v@.take(k as int));
            assert(v@.take(k + 1).last() == v@[k as int]);
            assert(is_digit_char(v@[k as int]));
        }
        let c = v[k];
        mant = mant * 10 + (c as u32 - 48) as u64;
        k += 1;
    }
    proof {
        assert(v@.take(v@.len() as int) =~= v@);
        lemma_digits_val_bound(v@);
        lemma_pow10_le(v@.len(), 18);
        lemma_pow10_vals();
    }
    mant
}

/// Exec twin of `lit_shape`.
pub(crate) fn lit_shape_x(t: &Vec<char>) -> (r: bool)
    ensures
        r == lit_shape(t@),
{
    let n = t.len();
    let neg = n > 0 && t[0] == '-';
    let start: usize = if neg {
        1
    } else {
        0
    };
    let body = seg(t, start, n);
    proof {
        if neg {
            assert(body@ =~= t@.drop_first());
        } else {
            assert(body@ =~= t@);
        }
    }
    let blen = body.len();
    let p = find_dot(&body);
    let ip = seg(&body, 0, p);
    let fp = if p < blen {
        seg(&body, p + 1, blen)
    } else {
        Vec::new()
    };
    proof {
        if p >= blen {
            assert(fp@ =~= Seq::<char>::empty());
        }
    }
    let ip_ok = check_digits(&ip);
    let fp_ok = check_digits(&fp);
    ip_ok && fp_ok && ip.len() + fp.len() >= 1
}

/// Exec twin of `lit_num_spec`.
pub fn lit_num(t: &Vec<char>) -> (r: Option<Num>)
    ensures
        match r {
            Some(q) => q.wf() && lit_num_spec(t@) == Some((q.ni(), q.di())),
            None => lit_num_spec(t@) is None,
        },
{
    let n = t.len();
    let neg = n > 0 && t[0] == '-';
    let start: usize = if neg {
        1
    } else {
        0
    };
    let body = seg(t, start, n);
    proof {
        if neg {
            assert(body@ =~= t@.drop_first());
        } else {
            assert(body@ =~= t@);
        }
    }
    let blen = body.len();
    let p = find_dot(&body);
    let ip = seg(&body, 0, p);
    let fp = if p < blen {
        seg(&body, p + 1, blen)
    } else {
        Vec::new()
    };
    proof {
        if p >= blen {
            assert(fp@ =~= Seq::<char>::empty());
        }
    }
    let ip_ok = check_digits(&ip);
    let fp_ok = check_digits(&fp);
    let ip_len = ip.len();
    let fp_len = fp.len();
    if !ip_ok || !fp_ok || ip_len + fp_len == 0 {
        proof {
            assert(!lit_shape(t@));
        }
        return None;
    }
    proof {
        assert(lit_shape(t@));
    }
    if ip_len > 18 {
        return None;
    }
    let keep_len: usize = if ip_len + fp_len <= 18 {
        fp_len
    } else {
        18 - ip_len
    };
    let mut digs = ip;
    let mut j: usize = 0;
    let ghost ipv = digs@;
    while j < keep_len
        invariant
            0 <= j <= keep_len <= fp@.len(),
            digs@ == ipv + fp@.take(j as int),
        decreases keep_len - j,
    {
        digs.push(fp[j]);
        proof {
            assert(digs@ =~= ipv + fp@.take(j + 1));
        }
        j += 1;
    }
    proof {
        let keep = if ipv.len() + fp@.len() <= 18 {
            fp@
        } else {
            fp@.take(18 - ipv.len())
        };
        assert(fp@.take(keep_len as int) =~= keep);
        assert(digs@ == ipv + keep);
        assert(all_digits(digs@)) by {
            assert(forall|i: int|
                0 <= i < ipv.len() ==> digs@[i] == #[trigger] ipv[i]);
            assert(forall|i: int|
                ipv.len() <= i < digs@.len() ==> digs@[i] == #[trigger] keep[i - ipv.len()]);
        }
    }
    let mant = digits_value(&digs);
    let den = pow10(keep_len);
    let sm: i128 = if neg {
        -(mant as i128)
    } else {
        mant as i128
    };
    proof {
        lemma_pow10_vals();
        reduce_fits(sm as int, den as int);
    }
    reduce(sm, den as i128)
}

/// Round `x / d` half to even.
pub open spec fn rhe_spec(x: int, d: int) -> int {
    let q = x / d;
    let r = x % d;
    if 2 * r > d || (2 * r == d && q % 2 == 1) {
        q + 1
    } else {
        q
    }
}

/// Exec twin of `rhe_spec` on non-negative 128-bit values.
fn rhe(x: u128, d: u128) -> (r: u128)
    requires
        1 <= d,
        x < 0xffff_ffff_ffff_ffff_ffff_ffff_ffff_ffff,
    ensures
        r as int == rhe_spec(x as int, d as int),
{
    let q = x / d;
    let r = x % d;
    proof {
        vstd::arithmetic::div_mod::lemma_mod_division_less_than_divisor(x as int, d as int);
        vstd::arithmetic::div_mod::lemma_div_nonincreasing(x as int, d as int);
    }
    if (d - r) <= r && !((d - r) == r && q % 2 == 0) {
        q + 1
    } else {
        q
    }
}

/// Decimal digits of `q`, most significant first.
pub open spec fn int_digits_spec(q: int) -> Seq<u8>
    decreases q,
{
    if q < 10 {
        seq![(if 0 <= q {
            q
        } else {
            0
        }) as u8]
    } else {
        int_digits_spec(q / 10).push((q % 10) as u8)
    }
}

pub(crate) fn int_digits(q: u128) -> (r: Vec<u8>)
    ensures
        r@ == int_digits_spec(q as int),
        r@.len() >= 1,
    decreases q,
{
    if q < 10 {
        let mut v: Vec<u8> = Vec::new();
        v.push(q as u8);
        proof {
            assert(v@ =~= int_digits_spec(q as int));
        }
        v
    } else {
        proof {
            vstd::arithmetic::div_mod::lemma_div_nonincreasing(q as int, 10);
            vstd::arithmetic::div_mod::lemma_div_is_strictly_smaller(q as int, 10);
            vstd::arithmetic::div_mod::lemma_mod_division_less_than_divisor(q as int, 10);
            vstd::arithmetic::div_mod::lemma_div_pos_is_pos(q as int, 10);
        }
        let mut v = int_digits(q / 10);
        v.push((q % 10) as u8);
        v
    }
}

/// Digits to characters.
pub open spec fn digit_chars_spec(ds: Seq<u8>) -> Seq<char> {
    Seq::new(ds.len(), |i: int| ((48 + ds[i] as int) as u8) as char)
}

pub(crate) fn digit_chars(ds: &Vec<u8>) -> (r: Vec<char>)
    requires
        forall|i: int| 0 <= i < ds@.len() ==> ds@[i] < 10,
    ensures
        r@ == digit_chars_spec(ds@),
{
    let mut out: Vec<char> = Vec::new();
    let mut i: usize = 0;
    while i < ds.len()
        invariant
            0 <= i <= ds@.len(),
            forall|j: int| 0 <= j < ds@.len() ==> ds@[j] < 10,
            out@.len() == i,
            forall|j: int| 0 <= j < i ==> out@[j] == ((48 + ds@[j] as int) as u8) as char,
        decreases ds@.len() - i,
    {
        out.push((48 + ds[i]) as char);
        i += 1;
    }
    proof {
        assert(out@ =~= digit_chars_spec(ds@));
    }
    out
}

/// Zero-pad at the front to at least `m` digits.
pub open spec fn pad_front_spec(ds: Seq<u8>, m: int) -> Seq<u8>
    decreases m - ds.len(),
{
    if ds.len() >= m {
        ds
    } else {
        pad_front_spec(seq![0u8] + ds, m)
    }
}

pub(crate) fn pad_front(ds: Vec<u8>, m: usize) -> (r: Vec<u8>)
    requires
        m <= 40,
        ds@.len() >= 1,
    ensures
        r@ == pad_front_spec(ds@, m as int),
        r@.len() >= m,
        r@.len() >= ds@.len(),
        forall|i: int| 0 <= i < r@.len() ==> (r@[i] < 10 <== forall|j: int|
            0 <= j < ds@.len() ==> ds@[j] < 10),
    decreases m - ds@.len(),
{
    if ds.len() >= m {
        ds
    } else {
        let mut v: Vec<u8> = Vec::new();
        v.push(0);
        let mut i: usize = 0;
        let ghost dsv = ds@;
        let n = ds.len();
        let mut rest = ds;
        while i < n
            invariant
                0 <= i <= n == dsv.len(),
                rest@ == dsv,
                v@ == seq![0u8] + dsv.take(i as int),
            decreases n - i,
        {
            v.push(rest[i]);
            proof {
                assert(v@ =~= seq![0u8] + dsv.take(i + 1));
            }
            i += 1;
        }
        proof {
            assert(v@ =~= seq![0u8] + dsv);
        }
        pad_front(v, m)
    }
}

/// Comma grouping as `FIXED` does it: reading left to right, a comma
/// follows the character at position `j` whenever the count of
/// characters after it is a positive multiple of three.  The minus
/// sign takes part in the count, a quirk kept from the grouping rule.
pub open spec fn commas_pre_spec(s: Seq<char>, j: int) -> Seq<char>
    decreases j,
{
    if j <= 0 {
        Seq::empty()
    } else {
        commas_pre_spec(s, j - 1) + seq![s[j - 1]] + (if (s.len() - j) % 3 == 0 && j != s.len() {
            seq![',']
        } else {
            Seq::empty()
        })
    }
}

pub open spec fn commas_spec(s: Seq<char>) -> Seq<char> {
    commas_pre_spec(s, s.len() as int)
}

pub(crate) fn commas(s: &Vec<char>) -> (r: Vec<char>)
    ensures
        r@ == commas_spec(s@),
{
    let n = s.len();
    let mut out: Vec<char> = Vec::new();
    let mut j: usize = 0;
    while j < n
        invariant
            0 <= j <= n == s@.len(),
            out@ == commas_pre_spec(s@, j as int),
        decreases n - j,
    {
        out.push(s[j]);
        let rem = n - (j + 1);
        if rem % 3 == 0 && j + 1 != n {
            out.push(',');
            proof {
                assert(out@ =~= commas_pre_spec(s@, j as int) + seq![s@[j as int]] + seq![',']);
            }
        } else {
            proof {
                assert(out@ =~= commas_pre_spec(s@, j as int) + seq![s@[j as int]]
                    + Seq::<char>::empty());
            }
        }
        j += 1;
    }
    out
}

pub open spec fn min_int(a: int, b: int) -> int {
    if a < b {
        a
    } else {
        b
    }
}

/// The text `FIXED` produces for the rational `n / d` with `kreq`
/// decimal places (already clamped non-negative by the caller):
/// round half to even at `min(kreq, 18)` places, zero-pad the rest,
/// and group the whole part with commas unless suppressed.
pub open spec fn fixed_str_spec(n: int, d: int, kreq: int, no_commas: bool) -> Seq<char> {
    let k = min_int(kreq, 18);
    let scaled = rhe_spec(abs_i(n) * pow10_spec(k as nat), d);
    let ds = pad_front_spec(int_digits_spec(scaled), k + 1);
    let ilen = ds.len() - k;
    let sign: Seq<char> = if n < 0 {
        seq!['-']
    } else {
        Seq::empty()
    };
    let istr = sign + digit_chars_spec(ds.take(ilen as int));
    let fstr = digit_chars_spec(ds.skip(ilen as int)) + Seq::new((kreq - k) as nat, |i: int| '0');
    (if no_commas {
        istr
    } else {
        commas_spec(istr)
    }) + (if kreq > 0 {
        seq!['.'] + fstr
    } else {
        Seq::empty()
    })
}

pub open spec fn abs_i(x: int) -> int {
    if x < 0 {
        -x
    } else {
        x
    }
}

/// Exec twin of `fixed_str_spec`.
#[verifier::rlimit(100)]
pub fn fixed_str(q: &Num, kreq: usize, no_commas: bool) -> (r: Vec<char>)
    requires
        q.wf(),
        kreq <= 127,
    ensures
        r@ == fixed_str_spec(q.ni(), q.di(), kreq as int, no_commas),
{
    let (n64, d64) = q.parts();
    let k: usize = if kreq < 18 {
        kreq
    } else {
        18
    };
    let a: u128 = if n64 < 0 {
        (-n64) as u128
    } else {
        n64 as u128
    };
    let p = pow10(k);
    proof {
        crate::num::lemma_mag_prod(a as int, p as int);
    }
    let scaled = rhe(a * p as u128, d64 as u128);
    let mut ds = pad_front(int_digits(scaled), k + 1);
    proof {
        lemma_int_digits_small(scaled as int);
    }
    let ilen = ds.len() - k;
    let frac_part = ds.split_off(ilen);
    proof {
        assert(ds@ =~= pad_front_spec(int_digits_spec(scaled as int), k + 1).take(ilen as int));
        assert(frac_part@ =~= pad_front_spec(int_digits_spec(scaled as int), k + 1).skip(
            ilen as int,
        ));
    }
    let mut istr: Vec<char> = Vec::new();
    if n64 < 0 {
        istr.push('-');
    }
    let idc = digit_chars(&ds);
    let mut i: usize = 0;
    let ghost istr0 = istr@;
    while i < idc.len()
        invariant
            0 <= i <= idc@.len(),
            istr@ == istr0 + idc@.take(i as int),
        decreases idc@.len() - i,
    {
        istr.push(idc[i]);
        proof {
            assert(istr@ =~= istr0 + idc@.take(i + 1));
        }
        i += 1;
    }
    proof {
        assert(istr@ =~= istr0 + idc@);
    }
    let head = if no_commas {
        istr
    } else {
        commas(&istr)
    };
    let mut out = head;
    if kreq > 0 {
        out.push('.');
        let fdc = digit_chars(&frac_part);
        let mut i2: usize = 0;
        let ghost out0 = out@;
        while i2 < fdc.len()
            invariant
                0 <= i2 <= fdc@.len(),
                out@ == out0 + fdc@.take(i2 as int),
            decreases fdc@.len() - i2,
        {
            out.push(fdc[i2]);
            proof {
                assert(out@ =~= out0 + fdc@.take(i2 + 1));
            }
            i2 += 1;
        }
        proof {
            assert(out@ =~= out0 + fdc@);
        }
        let mut z: usize = 0;
        let pad = kreq - k;
        let ghost out1 = out@;
        while z < pad
            invariant
                0 <= z <= pad,
                out@ == out1 + Seq::new(z as nat, |i: int| '0'),
            decreases pad - z,
        {
            out.push('0');
            proof {
                assert(out@ =~= out1 + Seq::new(z as nat + 1, |i: int| '0'));
            }
            z += 1;
        }
        proof {
            let spec_out = fixed_str_spec(q.ni(), q.di(), kreq as int, no_commas);
            assert(out@ =~= spec_out);
        }
        out
    } else {
        proof {
            let spec_out = fixed_str_spec(q.ni(), q.di(), kreq as int, no_commas);
            assert(out@ =~= spec_out);
        }
        out
    }
}

/// Every digit that `int_digits_spec` produces is below ten.
pub proof fn lemma_int_digits_small(q: int)
    ensures
        forall|i: int|
            0 <= i < int_digits_spec(q).len() ==> #[trigger] int_digits_spec(q)[i] < 10,
        int_digits_spec(q).len() >= 1,
    decreases q,
{
    if q >= 10 {
        vstd::arithmetic::div_mod::lemma_div_nonincreasing(q, 10);
        vstd::arithmetic::div_mod::lemma_div_is_strictly_smaller(q, 10);
        vstd::arithmetic::div_mod::lemma_mod_division_less_than_divisor(q, 10);
        lemma_int_digits_small(q / 10);
        let pre = int_digits_spec(q / 10);
        assert(forall|i: int|
            0 <= i < pre.len() ==> #[trigger] int_digits_spec(q)[i] == pre[i]);
        assert(int_digits_spec(q).last() == (q % 10) as u8);
    }
}

} // verus!
