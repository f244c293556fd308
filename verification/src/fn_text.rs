//! The text functions.
//!
//! Indexing is one-based throughout.  Plain functions count, slice
//! and search by Unicode scalar values; their `B`-suffixed twins
//! count by UTF-8 bytes and re-decode lossily.  `FIND` is
//! case-sensitive, `SEARCH` lower-cases both strings first.

use crate::eval::arg_spec;
use crate::eval::argd_spec;
use crate::eval::eval_arg;
use crate::eval::eval_argd;
use crate::eval::eval_rest;
use crate::eval::ok_wf;
use crate::eval::perr;
use crate::eval::perr_v;
use crate::eval::rest_spec;
use crate::eval::rv;
use crate::eval::Fetcher;
use crate::expr::exprs_view;
use crate::expr::lemma_exprs_view;
use crate::expr::wf_exprv;
use crate::expr::Expr;
use crate::expr::ExprV;
use crate::fn_date::sat_spec;
use crate::fn_date::sat64;
use crate::node::children_view;
use crate::node::lemma_children_view;
use crate::node::wf_node;
use crate::node::Node;
use crate::node::NodeV;
use crate::num::rat_trunc_spec;
use crate::num::Num;
use crate::numfmt::fixed_str;
use crate::numfmt::fixed_str_spec;
use crate::numfmt::pow10;
use crate::numfmt::pow10_spec;
use crate::parse::seg;
use crate::rules::Rule;
use crate::strings::bytes_lossy;
use crate::strings::char_lower;
use crate::strings::char_lower_of;
use crate::strings::char_upper;
use crate::strings::char_upper_of;
use crate::strings::chars_to_string;
use crate::strings::is_ws;
use crate::strings::is_ws_char;
use crate::strings::lossy_of;
use crate::strings::lower_of;
use crate::strings::str_lower;
use crate::strings::str_upper;
use crate::strings::string_to_chars;
use crate::strings::trim_spec;
use crate::strings::upper_of;
use crate::Error;
use crate::ErrV;
use vstd::prelude::*;
use vstd::string::StrSliceExecFns;
use vstd::utf8::encode_utf8;

verus! {

broadcast use vstd::std_specs::vec::axiom_vec_decreases_to_view;

pub open spec fn is_text_rule(r: Rule) -> bool {
    match r {
        Rule::left | Rule::leftb | Rule::right | Rule::rightb | Rule::mid | Rule::midb
            | Rule::char_t | Rule::unichar | Rule::code | Rule::unicode | Rule::concat
            | Rule::concatenate | Rule::exact | Rule::find | Rule::findb | Rule::search
            | Rule::searchb | Rule::fixed | Rule::len | Rule::lenb | Rule::lower | Rule::upper
            | Rule::rept | Rule::replace | Rule::replaceb | Rule::textjoin | Rule::trim | Rule::t
            | Rule::proper => true,
        _ => false,
    }
}

/// Exec twin of `is_text_rule`.
pub fn is_text_rule_x(r: Rule) -> (b: bool)
    ensures
        b == is_text_rule(r),
{
    match r {
        Rule::left | Rule::leftb | Rule::right | Rule::rightb | Rule::mid | Rule::midb
            | Rule::char_t | Rule::unichar | Rule::code | Rule::unicode | Rule::concat
            | Rule::concatenate | Rule::exact | Rule::find | Rule::findb | Rule::search
            | Rule::searchb | Rule::fixed | Rule::len | Rule::lenb | Rule::lower | Rule::upper
            | Rule::rept | Rule::replace | Rule::replaceb | Rule::textjoin | Rule::trim | Rule::t
            | Rule::proper => true,
        _ => false,
    }
}

/// A run of zero characters.
pub open spec fn zeros_spec(a: int) -> Seq<char> {
    Seq::new(a as nat, |i: int| '0')
}

pub open spec fn min_i(a: int, b: int) -> int {
    if a < b {
        a
    } else {
        b
    }
}

/// Copy of a byte span.
fn seg_u8(v: &Vec<u8>, a: usize, b: usize) -> (r: Vec<u8>)
    requires
        a <= b <= v@.len(),
    ensures
        r@ == v@.subrange(a as int, b as int),
{
    let mut out: Vec<u8> = Vec::new();
    let mut k = a;
    while k < b
        invariant
            a <= k <= b <= v@.len(),
            out@ == v@.subrange(a as int, k as int),
        decreases b - k,
    {
        out.push(v[k]);
        proof {
            assert(out@ =~= v@.subrange(a as int, k + 1));
        }
        k += 1;
    }
    out
}

/// The UTF-8 bytes of a string, as a vector.
fn str_bytes(s: &String) -> (r: Vec<u8>)
    ensures
        r@ == encode_utf8(s@),
{
    s.as_str().as_bytes_vec()
}

/// First occurrence of `nee` in `hay` at or after `i`.
pub open spec fn find_sub_spec(hay: Seq<u8>, nee: Seq<u8>, i: int) -> Option<int>
    decreases hay.len() + 1 - i,
{
    if !(0 <= i) || i + nee.len() > hay.len() {
        None
    } else if hay.subrange(i, i + nee.len()) == nee {
        Some(i)
    } else {
        find_sub_spec(hay, nee, i + 1)
    }
}

fn bytes_match(hay: &Vec<u8>, i: usize, nee: &Vec<u8>) -> (r: bool)
    requires
        i + nee@.len() <= hay@.len(),
    ensures
        r == (hay@.subrange(i as int, i + nee@.len()) == nee@),
{
    let hl = hay.len();
    let nl = nee.len();
    let mut j: usize = 0;
    while j < nl
        invariant
            0 <= j <= nl,
            nl == nee@.len(),
            hl == hay@.len(),
            i + nl <= hl,
            forall|k: int| 0 <= k < j ==> hay@[i + k] == #[trigger] nee@[k],
        decreases nl - j,
    {
        if hay[i + j] != nee[j] {
            proof {
                assert(hay@.subrange(i as int, i + nee@.len())[j as int] != nee@[j as int]);
            }
            return false;
        }
        j += 1;
    }
    proof {
        assert(hay@.subrange(i as int, i + nee@.len()) =~= nee@);
    }
    true
}

/// Exec twin of `find_sub_spec`.
fn find_sub(hay: &Vec<u8>, nee: &Vec<u8>, i: usize) -> (r: Option<usize>)
    ensures
        match r {
            Some(k) => find_sub_spec(hay@, nee@, i as int) == Some(k as int) && k <= hay@.len(),
            None => find_sub_spec(hay@, nee@, i as int) is None,
        },
    decreases hay@.len() + 1 - i,
{
    if i > hay.len() {
        return None;
    }
    if nee.len() > hay.len() - i {
        return None;
    }
    proof {
        if nee@.len() == 0 {
            assert(hay@.subrange(i as int, i as int) =~= nee@);
        }
    }
    if bytes_match(hay, i, nee) {
        Some(i)
    } else {
        find_sub(hay, nee, i + 1)
    }
}

/// A string repeated `k` times.
pub open spec fn rep_spec(s: Seq<char>, k: int) -> Seq<char>
    decreases k,
{
    if k <= 0 {
        Seq::empty()
    } else {
        s + rep_spec(s, k - 1)
    }
}

fn rep_chars(v: &Vec<char>, k: u64) -> (r: Vec<char>)
    ensures
        r@ == rep_spec(v@, k as int),
    decreases k,
{
    if k == 0 {
        Vec::new()
    } else {
        let mut out = seg(v, 0, v.len());
        proof {
            assert(out@ =~= v@);
        }
        let rest = rep_chars(v, k - 1);
        let mut i: usize = 0;
        let ghost r0 = out@;
        while i < rest.len()
            invariant
                0 <= i <= rest@.len(),
                out@ == r0 + rest@.take(i as int),
            decreases rest@.len() - i,
        {
            out.push(rest[i]);
            proof {
                assert(out@ =~= r0 + rest@.take(i + 1));
            }
            i += 1;
        }
        proof {
            assert(out@ =~= v@ + rest@);
        }
        out
    }
}

/// Append one vector to another.
pub(crate) fn extend_chars(out: &mut Vec<char>, v: &Vec<char>)
    ensures
        final(out)@ == old(out)@ + v@,
{
    let mut i: usize = 0;
    let ghost r0 = out@;
    while i < v.len()
        invariant
            0 <= i <= v@.len(),
            out@ == r0 + v@.take(i as int),
        decreases v@.len() - i,
    {
        out.push(v[i]);
        proof {
            assert(out@ =~= r0 + v@.take(i + 1));
        }
        i += 1;
    }
    proof {
        assert(out@ =~= r0 + v@);
    }
}

/// Skip Unicode whitespace.
pub open spec fn uws_skip_spec(s: Seq<char>, i: int) -> int
    decreases s.len() - i,
{
    if 0 <= i < s.len() && is_ws_char(s[i]) {
        uws_skip_spec(s, i + 1)
    } else {
        i
    }
}

/// End of the word starting at `i`: the next whitespace or the end.
pub open spec fn word_end_spec(s: Seq<char>, i: int) -> int
    decreases s.len() - i,
{
    if 0 <= i < s.len() && !is_ws_char(s[i]) {
        word_end_spec(s, i + 1)
    } else {
        i
    }
}

fn uws_skip(v: &Vec<char>, i: usize) -> (r: usize)
    requires
        i <= v@.len(),
    ensures
        r as int == uws_skip_spec(v@, i as int),
        i <= r <= v@.len(),
{
    let mut k = i;
    while k < v.len() && is_ws(v[k])
        invariant
            i <= k <= v@.len(),
            uws_skip_spec(v@, i as int) == uws_skip_spec(v@, k as int),
        decreases v@.len() - k,
    {
        k += 1;
    }
    k
}

fn word_end(v: &Vec<char>, i: usize) -> (r: usize)
    requires
        i <= v@.len(),
    ensures
        r as int == word_end_spec(v@, i as int),
        i <= r <= v@.len(),
{
    let mut k = i;
    while k < v.len() && !is_ws(v[k])
        invariant
            i <= k <= v@.len(),
            word_end_spec(v@, i as int) == word_end_spec(v@, k as int),
        decreases v@.len() - k,
    {
        k += 1;
    }
    k
}

/// The remainder of a word lower-cased character by character.
pub open spec fn lower_flat_spec(w: Seq<char>) -> Seq<char>
    decreases w.len(),
{
    if w.len() == 0 {
        Seq::empty()
    } else {
        char_lower_of(w[0]) + lower_flat_spec(w.drop_first())
    }
}

fn lower_flat(v: &Vec<char>, i: usize) -> (r: Vec<char>)
    requires
        i <= v@.len(),
    ensures
        r@ == lower_flat_spec(v@.skip(i as int)),
    decreases v@.len() - i,
{
    if i >= v.len() {
        proof {
            assert(v@.skip(i as int).len() == 0);
        }
        Vec::new()
    } else {
        let mut out = char_lower(v[i]);
        let rest = lower_flat(v, i + 1);
        proof {
            assert(v@.skip(i as int)[0] == v@[i as int]);
            assert(v@.skip(i as int).drop_first() =~= v@.skip(i + 1));
        }
        extend_chars(&mut out, &rest);
        out
    }
}

/// Title-case: each whitespace-delimited word gets its first
/// character upper-cased and the rest lower-cased, words joined by
/// single spaces.
pub open spec fn proper_tail_spec(s: Seq<char>, i: int) -> Seq<char>
    decreases s.len() - i,
{
    let j = uws_skip_spec(s, i);
    if !(i <= j < s.len()) {
        Seq::empty()
    } else {
        let e = word_end_spec(s, j);
        if !(j < e <= s.len()) {
            Seq::empty()
        } else {
            let w = s.subrange(j, e);
            let capped = char_upper_of(w[0]) + lower_flat_spec(w.drop_first());
            let more = uws_skip_spec(s, e) < s.len();
            if more {
                capped + seq![' '] + proper_tail_spec(s, e)
            } else {
                capped
            }
        }
    }
}

fn proper_tail(v: &Vec<char>, i: usize) -> (r: Vec<char>)
    requires
        i <= v@.len(),
    ensures
        r@ == proper_tail_spec(v@, i as int),
    decreases v@.len() - i,
{
    let j = uws_skip(v, i);
    if !(j < v.len()) {
        Vec::new()
    } else {
        let e = word_end(v, j);
        if !(j < e) {
            Vec::new()
        } else {
            let ghost w = v@.subrange(j as int, e as int);
            let mut out = char_upper(v[j]);
            let low = lower_flat_word(v, j + 1, e);
            proof {
                assert(w[0] == v@[j as int]);
                assert(w.drop_first() =~= v@.subrange(j + 1, e as int));
            }
            extend_chars(&mut out, &low);
            let more = uws_skip(v, e) < v.len();
            if more {
                out.push(' ');
                let rest = proper_tail(v, e);
                extend_chars(&mut out, &rest);
                proof {
                    let capped = char_upper_of(w[0]) + lower_flat_spec(w.drop_first());
                    assert(out@ =~= capped + seq![' '] + proper_tail_spec(v@, e as int));
                }
                out
            } else {
                out
            }
        }
    }
}

/// Characters of `v` from `a` to `b` lower-cased one by one.
fn lower_flat_word(v: &Vec<char>, a: usize, b: usize) -> (r: Vec<char>)
    requires
        a <= b <= v@.len(),
    ensures
        r@ == lower_flat_spec(v@.subrange(a as int, b as int)),
    decreases b - a,
{
    if a >= b {
        proof {
            assert(v@.subrange(a as int, b as int).len() == 0);
        }
        Vec::new()
    } else {
        let mut out = char_lower(v[a]);
        let rest = lower_flat_word(v, a + 1, b);
        proof {
            let w = v@.subrange(a as int, b as int);
            assert(w[0] == v@[a as int]);
            assert(w.drop_first() =~= v@.subrange(a + 1, b as int));
        }
        extend_chars(&mut out, &rest);
        out
    }
}

/// Floor to a power of ten: `floor(x / 10^a) * 10^a`, used by
/// `FIXED` with negative decimals.
pub open spec fn floor10_spec(n: int, d: int, a: int) -> Option<(int, int)> {
    let dp = d * pow10_spec(a as nat);
    let q = if n >= 0 {
        n / dp
    } else {
        -((-n + dp - 1) / dp)
    };
    let val = q * pow10_spec(a as nat);
    if crate::num::in_mag(val) {
        Some((val, 1))
    } else {
        None
    }
}

fn floor10(x: &Num, a: usize) -> (r: Option<Num>)
    requires
        x.wf(),
        a <= 18,
    ensures
        match r {
            Some(q) => q.wf() && floor10_spec(x.ni(), x.di(), a as int) == Some(
                (q.ni(), q.di()),
            ) && q.di() == 1,
            None => floor10_spec(x.ni(), x.di(), a as int) is None,
        },
{
    let (n, d) = x.parts();
    let p = pow10(a);
    proof {
        crate::num::lemma_mag_prod(x.di(), p as int);
    }
    let dp: u128 = d as u128 * p as u128;
    let qm: u128 = if n >= 0 {
        (n as u128) / dp
    } else {
        ((-(n as i128)) as u128 + dp - 1) / dp
    };
    proof {
        if n >= 0 {
            vstd::arithmetic::div_mod::lemma_div_pos_is_pos(n as int, dp as int);
            vstd::arithmetic::div_mod::lemma_div_nonincreasing(n as int, dp as int);
        } else {
            vstd::arithmetic::div_mod::lemma_div_pos_is_pos(-n as int + dp - 1, dp as int);
            vstd::arithmetic::div_mod::lemma_div_nonincreasing(-n as int + dp - 1, dp as int);
        }
    }
    proof {
        let a = if x.ni() >= 0 {
            x.ni()
        } else {
            -x.ni()
        };
        vstd::arithmetic::div_mod::lemma_fundamental_div_mod(a, dp as int);
        vstd::arithmetic::div_mod::lemma_fundamental_div_mod(a + dp - 1, dp as int);
        vstd::arithmetic::div_mod::lemma_mod_division_less_than_divisor(a, dp as int);
        vstd::arithmetic::div_mod::lemma_mod_division_less_than_divisor(a + dp - 1, dp as int);
        assert(qm as int * (dp as int) <= a + dp - 1) by (nonlinear_arith)
            requires
                (qm as int == a / dp as int && a == dp as int * (a / dp as int) + a % (dp as int)
                    && 0 <= a % (dp as int)) || (qm as int == (a + dp - 1) / (dp as int) && a + dp
                    - 1 == dp as int * ((a + dp - 1) / (dp as int)) + (a + dp - 1) % (dp as int)
                    && 0 <= (a + dp - 1) % (dp as int)),
                1 <= dp,
        ;
        assert(qm as int * (p as int) <= a + p as int) by (nonlinear_arith)
            requires
                qm as int * (dp as int) <= a + dp - 1,
                dp as int == x.di() * (p as int),
                1 <= x.di(),
                1 <= p,
                0 <= qm,
                0 <= a,
        ;
    }
    let valm: u128 = qm * (p as u128);
    let val: i128 = if n >= 0 {
        valm as i128
    } else {
        -(valm as i128)
    };
    proof {
        assert((-(qm as int)) * (p as int) == -(qm as int * (p as int))) by (nonlinear_arith);
    }
    if -0x7fff_ffff_ffff_ffff <= val && val <= 0x7fff_ffff_ffff_ffff {
        Some(Num::int_c(val as i64))
    } else {
        None
    }
}

/// Truncation toward zero of the exact sum of two rationals, on
/// their common denominator.
fn trunc_sum(a: &Num, b: &Num) -> (t: i128)
    requires
        a.wf(),
        b.wf(),
    ensures
        t as int == rat_trunc_spec(a.ni() * b.di() + b.ni() * a.di(), a.di() * b.di()),
        -0x7fff_ffff_ffff_ffff_ffff_ffff_ffff_ffff <= t <= 0x7fff_ffff_ffff_ffff_ffff_ffff_ffff_ffff,
{
    let (an, ad) = a.parts();
    let (bn, bd) = b.parts();
    proof {
        crate::num::lemma_mag_prod(a.ni(), b.di());
        crate::num::lemma_mag_prod(b.ni(), a.di());
        crate::num::lemma_mag_prod(a.di(), b.di());
    }
    let num: i128 = an as i128 * bd as i128 + bn as i128 * ad as i128;
    let den: i128 = ad as i128 * bd as i128;
    let numa: u128 = if num < 0 {
        (-num) as u128
    } else {
        num as u128
    };
    let q: u128 = numa / (den as u128);
    proof {
        vstd::arithmetic::div_mod::lemma_div_pos_is_pos(numa as int, den as int);
        vstd::arithmetic::div_mod::lemma_div_nonincreasing(numa as int, den as int);
    }
    if num < 0 {
        -(q as i128)
    } else {
        q as i128
    }
}

/// Concatenation fold: every further operand must be a string.
pub open spec fn fold_concat(vs: Seq<ExprV>, k: int, acc: Seq<char>, r: Rule) -> Result<
    ExprV,
    ErrV,
>
    decreases vs.len() - k,
{
    if !(0 <= k < vs.len()) {
        Ok(ExprV::Str(acc))
    } else {
        match vs[k] {
            ExprV::Str(t) => fold_concat(vs, k + 1, acc + t, r),
            _ => Err(perr_v(r)),
        }
    }
}

/// `TEXTJOIN` fold: a delimiter before every kept piece, empty pieces
/// skipped when so asked.
pub open spec fn fold_join(
    vs: Seq<ExprV>,
    k: int,
    acc: Seq<char>,
    delim: Seq<char>,
    ig: bool,
    r: Rule,
) -> Result<ExprV, ErrV>
    decreases vs.len() - k,
{
    if !(0 <= k < vs.len()) {
        Ok(ExprV::Str(acc))
    } else {
        match vs[k] {
            ExprV::Str(t) => if ig && t.len() == 0 {
                fold_join(vs, k + 1, acc, delim, ig, r)
            } else {
                fold_join(vs, k + 1, acc + delim + t, delim, ig, r)
            },
            _ => Err(perr_v(r)),
        }
    }
}

/// First occurrence of `nee` among the scalar values of `hay` at or
/// after position `i`.
pub open spec fn find_chars_spec(hay: Seq<char>, nee: Seq<char>, i: int) -> Option<int>
    decreases hay.len() + 1 - i,
{
    if !(0 <= i) || i + nee.len() > hay.len() {
        None
    } else if hay.subrange(i, i + nee.len()) == nee {
        Some(i)
    } else {
        find_chars_spec(hay, nee, i + 1)
    }
}

fn chars_match(hay: &Vec<char>, i: usize, nee: &Vec<char>) -> (r: bool)
    requires
        i + nee@.len() <= hay@.len(),
    ensures
        r == (hay@.subrange(i as int, i + nee@.len()) == nee@),
{
    let hl = hay.len();
    let nl = nee.len();
    let mut j: usize = 0;
    while j < nl
        invariant
            0 <= j <= nl,
            nl == nee@.len(),
            hl == hay@.len(),
            i + nl <= hl,
            forall|k: int| 0 <= k < j ==> hay@[i + k] == #[trigger] nee@[k],
        decreases nl - j,
    {
        if hay[i + j] != nee[j] {
            proof {
                assert(hay@.subrange(i as int, i + nee@.len())[j as int] != nee@[j as int]);
            }
            return false;
        }
        j += 1;
    }
    proof {
        assert(hay@.subrange(i as int, i + nee@.len()) =~= nee@);
    }
    true
}

/// Exec twin of `find_chars_spec`.
fn find_chars(hay: &Vec<char>, nee: &Vec<char>, i: u64) -> (r: Option<u64>)
    ensures
        match r {
            Some(k) => find_chars_spec(hay@, nee@, i as int) == Some(k as int) && k
                <= hay@.len(),
            None => find_chars_spec(hay@, nee@, i as int) is None,
        },
    decreases hay@.len() + 1 - i,
{
    if i > hay.len() as u64 {
        return None;
    }
    let iu: usize = i as usize;
    if nee.len() > hay.len() - iu {
        return None;
    }
    proof {
        if nee@.len() == 0 {
            assert(hay@.subrange(i as int, i as int) =~= nee@);
        }
    }
    if chars_match(hay, iu, nee) {
        Some(i)
    } else {
        find_chars(hay, nee, i + 1)
    }
}

/// The character search behind `FIND` and `SEARCH`: positions and the
/// start bound go by Unicode scalar values; the result is the
/// one-based scalar position of the first match at or after `start`.
/// `SEARCH` applies this to the `lower_of` folds of both strings.
/// A haystack longer than the supported bound fails like a missed
/// match.
#[verifier::opaque]
pub open spec fn find_scalar_spec(
    r: Rule,
    ft: Seq<char>,
    wt: Seq<char>,
    sn: int,
    sd: int,
) -> Result<ExprV, ErrV> {
    let hl = wt.len() as int;
    if hl > 0x7fff_ffff_ffff {
        Err(perr_v(r))
    } else if sn < sd || sn > hl * sd {
        Err(perr_v(r))
    } else {
        let st = rat_trunc_spec(sn - sd, sd);
        match find_chars_spec(wt, ft, st) {
            None => Err(perr_v(r)),
            Some(i) => Ok(ExprV::Number { n: i + 1, d: 1 }),
        }
    }
}

/// Exec twin of `find_scalar_spec`.
fn find_scalar(r: Rule, ft: &String, wt: &String, sq: &Num) -> (res: Result<Expr, Error>)
    requires
        sq.wf(),
    ensures
        rv(res) == find_scalar_spec(r, ft@, wt@, sq.ni(), sq.di()),
        ok_wf(res),
{
    proof {
        reveal(find_scalar_spec);
    }
    let wc = string_to_chars(wt.as_str());
    let hl = wc.len();
    if hl as u64 > 0x7fff_ffff_ffff {
        return Err(perr(r));
    }
    let (sn, sd) = sq.parts();
    proof {
        crate::num::lemma_mag_prod(hl as int, sq.di());
    }
    if sn < sd || (sn as i128) > (hl as i128) * (sd as i128) {
        return Err(perr(r));
    }
    proof {
        assert(sn as int <= 0x7fff_ffff_ffff * (sd as int)) by (nonlinear_arith)
            requires
                sn as int <= (hl as int) * (sd as int),
                hl as int <= 0x7fff_ffff_ffff,
                1 <= sd as int,
        ;
    }
    let st64 = trunc_ratio(sn, sd);
    let nc = string_to_chars(ft.as_str());
    match find_chars(&wc, &nc, st64) {
        None => Err(perr(r)),
        Some(i) => Ok(Expr::Number(Num::int_c(i as i64 + 1))),
    }
}

/// The byte search behind `FINDB` and `SEARCHB`: positions go by
/// UTF-8 byte offsets; the result is one-based and offset by the
/// start position.  The start bound is checked against `bt`'s byte
/// length — the text before case folding, so `SEARCHB` bounds like
/// the unfolded original.  Lengths beyond the supported bound fail
/// like a missed match.
#[verifier::opaque]
pub open spec fn find_gen_spec(
    r: Rule,
    ft: Seq<char>,
    wt: Seq<char>,
    bt: Seq<char>,
    sn: int,
    sd: int,
) -> Result<ExprV, ErrV> {
    let bl = encode_utf8(bt).len() as int;
    if bl > 0x7fff_ffff_ffff {
        Err(perr_v(r))
    } else if sn < sd || sn > bl * sd {
        Err(perr_v(r))
    } else {
        let st = rat_trunc_spec(sn - sd, sd);
        let wl = encode_utf8(wt).len() as int;
        let hay = encode_utf8(wt).skip(min_i(st, wl));
        let nee = encode_utf8(ft);
        match find_sub_spec(hay, nee, 0) {
            None => Err(perr_v(r)),
            Some(i) => if i > 0x7fff_ffff_ffff {
                Err(perr_v(r))
            } else {
                Ok(ExprV::Number { n: i + st + 1, d: 1 })
            },
        }
    }
}

/// Exec twin of `find_gen_spec`.
fn find_gen(r: Rule, ft: &String, wt: &String, bound: &String, sq: &Num) -> (res: Result<
    Expr,
    Error,
>)
    requires
        sq.wf(),
    ensures
        rv(res) == find_gen_spec(r, ft@, wt@, bound@, sq.ni(), sq.di()),
        ok_wf(res),
{
    proof {
        reveal(find_gen_spec);
    }
    let bb = str_bytes(bound);
    let bl = bb.len();
    if bl as u64 > 0x7fff_ffff_ffff {
        return Err(perr(r));
    }
    let (sn, sd) = sq.parts();
    proof {
        crate::num::lemma_mag_prod(bl as int, sq.di());
    }
    if sn < sd || (sn as i128) > (bl as i128) * (sd as i128) {
        return Err(perr(r));
    }
    proof {
        assert(sn as int <= 0x7fff_ffff_ffff * (sd as int)) by (nonlinear_arith)
            requires
                sn as int <= (bl as int) * (sd as int),
                bl as int <= 0x7fff_ffff_ffff,
                1 <= sd as int,
        ;
    }
    let st64 = trunc_ratio(sn, sd);
    let nee = str_bytes(ft);
    let wb = str_bytes(wt);
    let wl = wb.len();
    let cut64: u64 = if st64 < wl as u64 {
        st64
    } else {
        wl as u64
    };
    let cut: usize = cut64 as usize;
    let hay = seg_u8(&wb, cut, wl);
    proof {
        assert(hay@ =~= encode_utf8(wt@).skip(min_i(st64 as int, wl as int)));
    }
    match find_sub(&hay, &nee, 0) {
        None => Err(perr(r)),
        Some(i) => {
            proof {
                assert(i <= hay@.len());
            }
            if i as u64 > 0x7fff_ffff_ffff {
                Err(perr(r))
            } else {
                Ok(Expr::Number(Num::int_c(i as i64 + st64 as i64 + 1)))
            }
        },
    }
}

/// Truncation of `(sn - sd) / sd` for `sd <= sn <= K * sd` with
/// `K <= 2^47`: the zero-based start index.
fn trunc_ratio(sn: i64, sd: i64) -> (r: u64)
    requires
        1 <= sd,
        sd <= sn,
        sn as int <= 0x7fff_ffff_ffff * sd as int,
    ensures
        r as int == rat_trunc_spec(sn as int - sd as int, sd as int),
        r <= 0x7fff_ffff_ffff,
{
    let num: u64 = (sn - sd) as u64;
    let q: u64 = num / (sd as u64);
    proof {
        vstd::arithmetic::div_mod::lemma_div_pos_is_pos(num as int, sd as int);
        vstd::arithmetic::div_mod::lemma_fundamental_div_mod(num as int, sd as int);
        vstd::arithmetic::div_mod::lemma_mod_division_less_than_divisor(num as int, sd as int);
        assert(q <= 0x7fff_ffff_ffff) by (nonlinear_arith)
            requires
                num as int == sd as int * (q as int) + ((num as int) % (sd as int)),
                0 <= (num as int) % (sd as int) < sd as int,
                num as int <= 0x7fff_ffff_ffff * (sd as int),
                1 <= sd as int,
                q >= 0,
        ;
    }
    q
}

/// Exec twin of `fold_concat`.
fn fold_concat_x(vs: &Vec<Expr>, s0: &String, r: Rule) -> (res: Result<Expr, Error>)
    ensures
        match res {
            Ok(e) => fold_concat(exprs_view(vs@), 0, s0@, r) == Ok::<ExprV, ErrV>(e@) && wf_exprv(
                e@,
            ),
            Err(e) => fold_concat(exprs_view(vs@), 0, s0@, r) == Err::<ExprV, ErrV>(e@),
        },
{
    let mut acc = string_to_chars(s0.as_str());
    let mut k: usize = 0;
    proof {
        lemma_exprs_view(vs@);
    }
    while k < vs.len()
        invariant
            0 <= k <= vs@.len(),
            exprs_view(vs@).len() == vs@.len(),
            forall|i: int| 0 <= i < vs@.len() ==> exprs_view(vs@)[i] == #[trigger] vs@[i]@,
            fold_concat(exprs_view(vs@), 0, s0@, r) == fold_concat(
                exprs_view(vs@),
                k as int,
                acc@,
                r,
            ),
        decreases vs@.len() - k,
    {
        proof {
            assert(exprs_view(vs@)[k as int] == vs@[k as int]@);
        }
        match &vs[k] {
            Expr::String(t) => {
                let tv = string_to_chars(t.as_str());
                extend_chars(&mut acc, &tv);
            },
            _ => {
                return Err(perr(r));
            },
        }
        k += 1;
    }
    Ok(Expr::String(chars_to_string(&acc)))
}

/// Exec twin of `fold_join`.
fn fold_join_x(vs: &Vec<Expr>, s0: &String, delim: &String, ig: bool, r: Rule) -> (res: Result<
    Expr,
    Error,
>)
    ensures
        match res {
            Ok(e) => fold_join(exprs_view(vs@), 0, s0@, delim@, ig, r) == Ok::<ExprV, ErrV>(e@)
                && wf_exprv(e@),
            Err(e) => fold_join(exprs_view(vs@), 0, s0@, delim@, ig, r) == Err::<ExprV, ErrV>(e@),
        },
{
    let dv = string_to_chars(delim.as_str());
    let mut acc = string_to_chars(s0.as_str());
    let mut k: usize = 0;
    proof {
        lemma_exprs_view(vs@);
    }
    while k < vs.len()
        invariant
            0 <= k <= vs@.len(),
            dv@ == delim@,
            exprs_view(vs@).len() == vs@.len(),
            forall|i: int| 0 <= i < vs@.len() ==> exprs_view(vs@)[i] == #[trigger] vs@[i]@,
            fold_join(exprs_view(vs@), 0, s0@, delim@, ig, r) == fold_join(
                exprs_view(vs@),
                k as int,
                acc@,
                delim@,
                ig,
                r,
            ),
        decreases vs@.len() - k,
    {
        proof {
            assert(exprs_view(vs@)[k as int] == vs@[k as int]@);
        }
        match &vs[k] {
            Expr::String(t) => {
                let tv = string_to_chars(t.as_str());
                if !(ig && tv.len() == 0) {
                    extend_chars(&mut acc, &dv);
                    extend_chars(&mut acc, &tv);
                }
            },
            _ => {
                return Err(perr(r));
            },
        }
        k += 1;
    }
    Ok(Expr::String(chars_to_string(&acc)))
}

/// The text category of `eval_spec`.
#[verifier::opaque]
pub open spec fn eval_text_spec(n: NodeV) -> Result<ExprV, ErrV>
    decreases n, 1int, 0int,
{
    let r = n.rule;
    if r == Rule::left || r == Rule::leftb || r == Rule::right || r == Rule::rightb {
        match arg_spec(n.children, 0, r) {
            Err(e) => Err(e),
            Ok(a0) => match argd_spec(n.children, 1, ExprV::Number { n: 1, d: 1 }) {
                Err(e) => Err(e),
                Ok(a1) => match (a0, a1) {
                    (ExprV::Str(s), ExprV::Number { n: kn, d: kd }) => if kn < 0 {
                        Err(perr_v(r))
                    } else {
                        let k = sat_spec(rat_trunc_spec(kn, kd), 0, 0xffff_ffff);
                        if r == Rule::left {
                            Ok(ExprV::Str(s.take(min_i(k, s.len() as int))))
                        } else if r == Rule::leftb {
                            let b = encode_utf8(s);
                            Ok(ExprV::Str(lossy_of(b.take(min_i(k, b.len() as int)))))
                        } else if r == Rule::right {
                            let st = if k >= s.len() {
                                0int
                            } else {
                                s.len() - k
                            };
                            Ok(ExprV::Str(s.skip(st)))
                        } else {
                            let b = encode_utf8(s);
                            let st = if k >= b.len() {
                                0int
                            } else {
                                b.len() - k
                            };
                            Ok(ExprV::Str(lossy_of(b.skip(st))))
                        }
                    },
                    _ => Err(perr_v(r)),
                },
            },
        }
    } else if r == Rule::mid || r == Rule::midb {
        match arg_spec(n.children, 0, r) {
            Err(e) => Err(e),
            Ok(a0) => match arg_spec(n.children, 1, r) {
                Err(e) => Err(e),
                Ok(a1) => match arg_spec(n.children, 2, r) {
                    Err(e) => Err(e),
                    Ok(a2) => match (a0, a1, a2) {
                        (
                            ExprV::Str(s),
                            ExprV::Number { n: sn, d: sd },
                            ExprV::Number { n: ln, d: ld },
                        ) => {
                            let st = rat_trunc_spec(sn, sd);
                            if st < 1 {
                                Err(perr_v(r))
                            } else {
                                let st1 = sat_spec(st, 1, 0xffff_ffff) - 1;
                                let k = sat_spec(rat_trunc_spec(ln, ld), 0, 0xffff_ffff);
                                if r == Rule::mid {
                                    let a = min_i(st1, s.len() as int);
                                    let b = min_i(st1 + k, s.len() as int);
                                    Ok(ExprV::Str(s.subrange(a, b)))
                                } else {
                                    let bs = encode_utf8(s);
                                    let a = min_i(st1, bs.len() as int);
                                    let b = min_i(st1 + k, bs.len() as int);
                                    Ok(ExprV::Str(lossy_of(bs.subrange(a, b))))
                                }
                            }
                        },
                        _ => Err(perr_v(r)),
                    },
                },
            },
        }
    } else if r == Rule::char_t || r == Rule::unichar {
        match arg_spec(n.children, 0, r) {
            Err(e) => Err(e),
            Ok(a0) => match a0 {
                ExprV::Number { n: xn, d: xd } => {
                    let b = sat_spec(rat_trunc_spec(xn, xd), 0, 255);
                    Ok(ExprV::Str(seq![(b as u8) as char]))
                },
                _ => Err(perr_v(r)),
            },
        }
    } else if r == Rule::code || r == Rule::unicode {
        match arg_spec(n.children, 0, r) {
            Err(e) => Err(e),
            Ok(a0) => match a0 {
                ExprV::Str(s) => if s.len() == 0 {
                    Err(perr_v(r))
                } else {
                    Ok(ExprV::Number { n: (s[0] as u8) as int, d: 1 })
                },
                _ => Err(perr_v(r)),
            },
        }
    } else if r == Rule::concat || r == Rule::concatenate {
        match arg_spec(n.children, 0, r) {
            Err(e) => Err(e),
            Ok(first) => match rest_spec(n.children, 1) {
                Err(e) => Err(e),
                Ok(vs) => match first {
                    ExprV::Str(s0) => fold_concat(vs, 0, s0, r),
                    _ => Err(perr_v(r)),
                },
            },
        }
    } else if r == Rule::exact {
        match arg_spec(n.children, 0, r) {
            Err(e) => Err(e),
            Ok(a0) => match arg_spec(n.children, 1, r) {
                Err(e) => Err(e),
                Ok(a1) => match (a0, a1) {
                    (ExprV::Str(s1), ExprV::Str(s2)) => Ok(ExprV::Bool(s1 == s2)),
                    _ => Err(perr_v(r)),
                },
            },
        }
    } else if r == Rule::find || r == Rule::findb || r == Rule::search || r == Rule::searchb {
        match arg_spec(n.children, 0, r) {
            Err(e) => Err(e),
            Ok(a0) => match arg_spec(n.children, 1, r) {
                Err(e) => Err(e),
                Ok(a1) => match argd_spec(n.children, 2, ExprV::Number { n: 1, d: 1 }) {
                    Err(e) => Err(e),
                    Ok(a2) => match (a0, a1, a2) {
                        (ExprV::Str(ft), ExprV::Str(wt), ExprV::Number { n: sn, d: sd }) => {
                            if r == Rule::find {
                                find_scalar_spec(r, ft, wt, sn, sd)
                            } else if r == Rule::search {
                                find_scalar_spec(r, lower_of(ft), lower_of(wt), sn, sd)
                            } else if r == Rule::findb {
                                find_gen_spec(r, ft, wt, wt, sn, sd)
                            } else {
                                find_gen_spec(r, lower_of(ft), lower_of(wt), wt, sn, sd)
                            }
                        },
                        _ => Err(perr_v(r)),
                    },
                },
            },
        }
    } else if r == Rule::fixed {
        match arg_spec(n.children, 0, r) {
            Err(e) => Err(e),
            Ok(a0) => match argd_spec(n.children, 1, ExprV::Number { n: 2, d: 1 }) {
                Err(e) => Err(e),
                Ok(a1) => match argd_spec(n.children, 2, ExprV::Bool(false)) {
                    Err(e) => Err(e),
                    Ok(a2) => match (a0, a1, a2) {
                        (
                            ExprV::Number { n: xn, d: xd },
                            ExprV::Number { n: dn, d: dd },
                            ExprV::Bool(nc),
                        ) => {
                            let dec = rat_trunc_spec(dn, dd);
                            if dec < 0 {
                                let a = min_i(-dec, 127);
                                if a <= 18 {
                                    match floor10_spec(xn, xd, a) {
                                        None => Err(perr_v(r)),
                                        Some(p) => Ok(
                                            ExprV::Str(fixed_str_spec(p.0, p.1, 0, nc)),
                                        ),
                                    }
                                } else {
                                    // the whole value floors away: zero,
                                    // or minus one power of ten
                                    let body: Seq<char> = if xn < 0 {
                                        seq!['-', '1'] + zeros_spec(a)
                                    } else {
                                        seq!['0']
                                    };
                                    Ok(
                                        ExprV::Str(
                                            if nc {
                                                body
                                            } else {
                                                crate::numfmt::commas_spec(body)
                                            },
                                        ),
                                    )
                                }
                            } else {
                                let k = sat_spec(dec, 0, 127);
                                Ok(ExprV::Str(fixed_str_spec(xn, xd, k, nc)))
                            }
                        },
                        _ => Err(perr_v(r)),
                    },
                },
            },
        }
    } else if r == Rule::len || r == Rule::lenb {
        match arg_spec(n.children, 0, r) {
            Err(e) => Err(e),
            Ok(a0) => match a0 {
                ExprV::Str(s) => {
                    let ll = if r == Rule::len {
                        s.len() as int
                    } else {
                        encode_utf8(s).len() as int
                    };
                    if ll > 0x7fff_ffff_ffff_ffff {
                        Err(perr_v(r))
                    } else {
                        Ok(ExprV::Number { n: ll, d: 1 })
                    }
                },
                _ => Err(perr_v(r)),
            },
        }
    } else if r == Rule::lower || r == Rule::upper {
        match arg_spec(n.children, 0, r) {
            Err(e) => Err(e),
            Ok(a0) => match a0 {
                ExprV::Str(s) => Ok(
                    ExprV::Str(
                        if r == Rule::lower {
                            lower_of(s)
                        } else {
                            upper_of(s)
                        },
                    ),
                ),
                _ => Err(perr_v(r)),
            },
        }
    } else if r == Rule::rept {
        match arg_spec(n.children, 0, r) {
            Err(e) => Err(e),
            Ok(a0) => match arg_spec(n.children, 1, r) {
                Err(e) => Err(e),
                Ok(a1) => match (a0, a1) {
                    (ExprV::Str(s), ExprV::Number { n: kn, d: kd }) => if kn < 0 {
                        Err(perr_v(r))
                    } else {
                        let k = sat_spec(rat_trunc_spec(kn, kd), 0, 0xffff_ffff);
                        Ok(ExprV::Str(rep_spec(s, k)))
                    },
                    _ => Err(perr_v(r)),
                },
            },
        }
    } else if r == Rule::replace || r == Rule::replaceb {
        match arg_spec(n.children, 0, r) {
            Err(e) => Err(e),
            Ok(a0) => match arg_spec(n.children, 1, r) {
                Err(e) => Err(e),
                Ok(a1) => match arg_spec(n.children, 2, r) {
                    Err(e) => Err(e),
                    Ok(a2) => match arg_spec(n.children, 3, r) {
                        Err(e) => Err(e),
                        Ok(a3) => match (a0, a1, a2, a3) {
                            (
                                ExprV::Str(s),
                                ExprV::Number { n: sn, d: sd },
                                ExprV::Number { n: ln, d: ld },
                                ExprV::Str(new),
                            ) => {
                                let st = rat_trunc_spec(sn, sd);
                                let sum_t = rat_trunc_spec(sn * ld + ln * sd, sd * ld);
                                if st < 1 || sum_t < 1 {
                                    Err(perr_v(r))
                                } else {
                                    let st1 = sat_spec(st, 1, 0xffff_ffff) - 1;
                                    let cut = sat_spec(sum_t - 1, 0, 0xffff_ffff);
                                    if r == Rule::replace {
                                        let head = s.take(min_i(st1, s.len() as int));
                                        let tail = s.skip(min_i(cut, s.len() as int));
                                        Ok(ExprV::Str(head + new + tail))
                                    } else {
                                        let bs = encode_utf8(s);
                                        let head = lossy_of(bs.take(min_i(st1, bs.len() as int)));
                                        let tail = lossy_of(bs.skip(min_i(cut, bs.len() as int)));
                                        Ok(ExprV::Str(head + new + tail))
                                    }
                                }
                            },
                            _ => Err(perr_v(r)),
                        },
                    },
                },
            },
        }
    } else if r == Rule::textjoin {
        match arg_spec(n.children, 0, r) {
            Err(e) => Err(e),
            Ok(a0) => match arg_spec(n.children, 1, r) {
                Err(e) => Err(e),
                Ok(a1) => match arg_spec(n.children, 2, r) {
                    Err(e) => Err(e),
                    Ok(a2) => match rest_spec(n.children, 3) {
                        Err(e) => Err(e),
                        Ok(vs) => match (a0, a1, a2) {
                            (ExprV::Str(delim), ExprV::Bool(ig), ExprV::Str(s0)) => fold_join(
                                vs,
                                0,
                                s0,
                                delim,
                                ig,
                                r,
                            ),
                            _ => Err(perr_v(r)),
                        },
                    },
                },
            },
        }
    } else if r == Rule::trim {
        match arg_spec(n.children, 0, r) {
            Err(e) => Err(e),
            Ok(a0) => match a0 {
                ExprV::Str(s) => Ok(ExprV::Str(trim_spec(s))),
                _ => Err(perr_v(r)),
            },
        }
    } else if r == Rule::t {
        match arg_spec(n.children, 0, r) {
            Err(e) => Err(e),
            Ok(a0) => match a0 {
                ExprV::Str(s) => Ok(ExprV::Str(s)),
                _ => Ok(ExprV::Str(Seq::empty())),
            },
        }
    } else {
        // proper
        match arg_spec(n.children, 0, r) {
            Err(e) => Err(e),
            Ok(a0) => match a0 {
                ExprV::Str(s) => Ok(ExprV::Str(proper_tail_spec(s, 0))),
                _ => Err(perr_v(r)),
            },
        }
    }
}

/// Exec twin of `eval_text_spec`.
#[verifier::rlimit(100)]
pub fn eval_text<F: Fetcher>(n: &Node, f: &mut F) -> (res: Result<Expr, Error>)
    requires
        wf_node(n@),
        is_text_rule(n@.rule),
    ensures
        crate::eval::is_det(n@) ==> rv(res) == eval_text_spec(n@),
        ok_wf(res),
    decreases n, 1int, 0int,
{
    proof {
        reveal(eval_text_spec);
        reveal(find_gen_spec);
    }
    proof {
        lemma_children_view(n.children@);
        assert(n@.children == children_view(n.children@));
        crate::eval::lemma_node_kids(n@);
    }
    let r = n.rule;
    match r {
        Rule::left | Rule::leftb | Rule::right | Rule::rightb => {
            match eval_arg(&n.children, 0, r, f) {
                Err(e) => Err(e),
                Ok(a0) => match eval_argd(&n.children, 1, Expr::Number(Num::int_c(1)), f) {
                    Err(e) => Err(e),
                    Ok(a1) => match (a0, a1) {
                        (Expr::String(s), Expr::Number(kq)) => {
                            let (kn, _kd) = kq.parts();
                            if kn < 0 {
                                Err(perr(r))
                            } else {
                                let k64 = sat64(kq.trunc_q(), 0, 0xffff_ffff);
                                let k = k64 as usize;
                                match r {
                                    Rule::left => {
                                        let cs = string_to_chars(s.as_str());
                                        let b = if k < cs.len() {
                                            k
                                        } else {
                                            cs.len()
                                        };
                                        let piece = seg(&cs, 0, b);
                                        proof {
                                            assert(piece@ =~= s@.take(
                                                min_i(k64 as int, s@.len() as int),
                                            ));
                                        }
                                        Ok(Expr::String(chars_to_string(&piece)))
                                    },
                                    Rule::leftb => {
                                        let bs = str_bytes(&s);
                                        let b = if k < bs.len() {
                                            k
                                        } else {
                                            bs.len()
                                        };
                                        let piece = seg_u8(&bs, 0, b);
                                        proof {
                                            assert(piece@ =~= encode_utf8(s@).take(
                                                min_i(k64 as int, encode_utf8(s@).len() as int),
                                            ));
                                        }
                                        Ok(Expr::String(bytes_lossy(&piece)))
                                    },
                                    Rule::right => {
                                        let cs = string_to_chars(s.as_str());
                                        let st = if k >= cs.len() {
                                            0
                                        } else {
                                            cs.len() - k
                                        };
                                        let piece = seg(&cs, st, cs.len());
                                        proof {
                                            assert(piece@ =~= s@.skip(
                                                if k64 as int >= s@.len() {
                                                    0int
                                                } else {
                                                    s@.len() - k64 as int
                                                },
                                            ));
                                        }
                                        Ok(Expr::String(chars_to_string(&piece)))
                                    },
                                    _ => {
                                        let bs = str_bytes(&s);
                                        let st = if k >= bs.len() {
                                            0
                                        } else {
                                            bs.len() - k
                                        };
                                        let piece = seg_u8(&bs, st, bs.len());
                                        proof {
                                            assert(piece@ =~= encode_utf8(s@).skip(
                                                if k64 as int >= encode_utf8(s@).len() {
                                                    0int
                                                } else {
                                                    encode_utf8(s@).len() - k64 as int
                                                },
                                            ));
                                        }
                                        Ok(Expr::String(bytes_lossy(&piece)))
                                    },
                                }
                            }
                        },
                        _ => Err(perr(r)),
                    },
                },
            }
        },
        Rule::mid | Rule::midb => {
            match eval_arg(&n.children, 0, r, f) {
                Err(e) => Err(e),
                Ok(a0) => match eval_arg(&n.children, 1, r, f) {
                    Err(e) => Err(e),
                    Ok(a1) => match eval_arg(&n.children, 2, r, f) {
                        Err(e) => Err(e),
                        Ok(a2) => match (a0, a1, a2) {
                            (Expr::String(s), Expr::Number(sq), Expr::Number(lq)) => {
                                let st64 = sq.trunc_q();
                                if st64 < 1 {
                                    Err(perr(r))
                                } else {
                                    let st1 = (sat64(st64, 1, 0xffff_ffff) - 1) as usize;
                                    let k = sat64(lq.trunc_q(), 0, 0xffff_ffff) as usize;
                                    if matches!(r, Rule::mid) {
                                        let cs = string_to_chars(s.as_str());
                                        let a = if st1 < cs.len() {
                                            st1
                                        } else {
                                            cs.len()
                                        };
                                        let cl64: u64 = cs.len() as u64;
                                        let s64: u64 = st1 as u64 + k as u64;
                                        let b64: u64 = if s64 < cl64 {
                                            s64
                                        } else {
                                            cl64
                                        };
                                        let piece = seg(&cs, a, b64 as usize);
                                        Ok(Expr::String(chars_to_string(&piece)))
                                    } else {
                                        let bs = str_bytes(&s);
                                        let a = if st1 < bs.len() {
                                            st1
                                        } else {
                                            bs.len()
                                        };
                                        let bl64: u64 = bs.len() as u64;
                                        let t64: u64 = st1 as u64 + k as u64;
                                        let b64: u64 = if t64 < bl64 {
                                            t64
                                        } else {
                                            bl64
                                        };
                                        let piece = seg_u8(&bs, a, b64 as usize);
                                        Ok(Expr::String(bytes_lossy(&piece)))
                                    }
                                }
                            },
                            _ => Err(perr(r)),
                        },
                    },
                },
            }
        },
        Rule::char_t | Rule::unichar => {
            match eval_arg(&n.children, 0, r, f) {
                Err(e) => Err(e),
                Ok(a0) => match a0 {
                    Expr::Number(xq) => {
                        let b = sat64(xq.trunc_q(), 0, 255) as u8;
                        let mut v: Vec<char> = Vec::new();
                        v.push(b as char);
                        proof {
                            assert(v@ =~= seq![(b as u8) as char]);
                        }
                        Ok(Expr::String(chars_to_string(&v)))
                    },
                    _ => Err(perr(r)),
                },
            }
        },
        Rule::code | Rule::unicode => {
            match eval_arg(&n.children, 0, r, f) {
                Err(e) => Err(e),
                Ok(a0) => match a0 {
                    Expr::String(s) => {
                        let cs = string_to_chars(s.as_str());
                        if cs.len() == 0 {
                            Err(perr(r))
                        } else {
                            let b = cs[0] as u8;
                            proof {
                                assert(cs@[0] == s@[0]);
                                assert(b as int == (s@[0] as u8) as int);
                            }
                            Ok(Expr::Number(Num::int_c(b as i64)))
                        }
                    },
                    _ => Err(perr(r)),
                },
            }
        },
        Rule::concat | Rule::concatenate => {
            match eval_arg(&n.children, 0, r, f) {
                Err(e) => Err(e),
                Ok(first) => match eval_rest(&n.children, 1, f) {
                    Err(e) => Err(e),
                    Ok(vs) => match first {
                        Expr::String(s0) => fold_concat_x(&vs, &s0, r),
                        _ => Err(perr(r)),
                    },
                },
            }
        },
        Rule::exact => {
            match eval_arg(&n.children, 0, r, f) {
                Err(e) => Err(e),
                Ok(a0) => match eval_arg(&n.children, 1, r, f) {
                    Err(e) => Err(e),
                    Ok(a1) => match (a0, a1) {
                        (Expr::String(s1), Expr::String(s2)) => Ok(
                            Expr::Bool(crate::ops::str_eq_x(s1.as_str(), s2.as_str())),
                        ),
                        _ => Err(perr(r)),
                    },
                },
            }
        },
        Rule::find | Rule::findb | Rule::search | Rule::searchb => {
            match eval_arg(&n.children, 0, r, f) {
                Err(e) => Err(e),
                Ok(a0) => match eval_arg(&n.children, 1, r, f) {
                    Err(e) => Err(e),
                    Ok(a1) => match eval_argd(&n.children, 2, Expr::Number(Num::int_c(1)), f) {
                        Err(e) => Err(e),
                        Ok(a2) => match (a0, a1, a2) {
                            (Expr::String(ft), Expr::String(wt), Expr::Number(sq)) => {
                                match r {
                                    Rule::find => find_scalar(r, &ft, &wt, &sq),
                                    Rule::search => {
                                        let fl = str_lower(ft.as_str());
                                        let wl = str_lower(wt.as_str());
                                        find_scalar(r, &fl, &wl, &sq)
                                    },
                                    Rule::findb => find_gen(r, &ft, &wt, &wt, &sq),
                                    _ => {
                                        let fl = str_lower(ft.as_str());
                                        let wl = str_lower(wt.as_str());
                                        find_gen(r, &fl, &wl, &wt, &sq)
                                    },
                                }
                            },
                            _ => Err(perr(r)),
                        },
                    },
                },
            }
        },
        _ => eval_text2(n, f),
    }
}

/// The rest of the text category, split out to keep each proof small.
#[verifier::rlimit(100)]
fn eval_text2<F: Fetcher>(n: &Node, f: &mut F) -> (res: Result<Expr, Error>)
    requires
        wf_node(n@),
        is_text_rule(n@.rule),
        !(n@.rule == Rule::left || n@.rule == Rule::leftb || n@.rule == Rule::right || n@.rule
            == Rule::rightb || n@.rule == Rule::mid || n@.rule == Rule::midb || n@.rule
            == Rule::char_t || n@.rule == Rule::unichar || n@.rule == Rule::code || n@.rule
            == Rule::unicode || n@.rule == Rule::concat || n@.rule == Rule::concatenate || n@.rule
            == Rule::exact || n@.rule == Rule::find || n@.rule == Rule::findb || n@.rule
            == Rule::search || n@.rule == Rule::searchb),
    ensures
        crate::eval::is_det(n@) ==> rv(res) == eval_text_spec(n@),
        ok_wf(res),
    decreases n, 0int, 0int,
{
    proof {
        reveal(eval_text_spec);
        reveal(find_gen_spec);
        reveal(find_scalar_spec);
        lemma_children_view(n.children@);
        assert(n@.children == children_view(n.children@));
        crate::eval::lemma_node_kids(n@);
    }
    let r = n.rule;
    match r {
        Rule::fixed => {
            match eval_arg(&n.children, 0, r, f) {
                Err(e) => Err(e),
                Ok(a0) => match eval_argd(&n.children, 1, Expr::Number(Num::int_c(2)), f) {
                    Err(e) => Err(e),
                    Ok(a1) => match eval_argd(&n.children, 2, Expr::Bool(false), f) {
                        Err(e) => Err(e),
                        Ok(a2) => match (a0, a1, a2) {
                            (Expr::Number(xq), Expr::Number(dq), Expr::Bool(nc)) => {
                                let dec = dq.trunc_q();
                                if dec < 0 {
                                    let na: i64 = -dec;
                                    if na <= 18 {
                                        let a = na as usize;
                                        match floor10(&xq, a) {
                                            None => Err(perr(r)),
                                            Some(p) => {
                                                let cs = fixed_str(&p, 0, nc);
                                                Ok(Expr::String(chars_to_string(&cs)))
                                            },
                                        }
                                    } else {
                                        let a: usize = if na < 127 {
                                            na as usize
                                        } else {
                                            127
                                        };
                                        let (xn64, _xd64) = xq.parts();
                                        let mut body: Vec<char> = Vec::new();
                                        if xn64 < 0 {
                                            body.push('-');
                                            body.push('1');
                                            let mut z: usize = 0;
                                            while z < a
                                                invariant
                                                    0 <= z <= a,
                                                    body@ == seq!['-', '1'] + zeros_spec(
                                                        z as int,
                                                    ),
                                                decreases a - z,
                                            {
                                                body.push('0');
                                                proof {
                                                    assert(body@ =~= seq!['-', '1'] + zeros_spec(
                                                        z + 1,
                                                    ));
                                                }
                                                z += 1;
                                            }
                                            proof {
                                                assert(body@ =~= seq!['-', '1'] + zeros_spec(
                                                    a as int,
                                                ));
                                            }
                                        } else {
                                            body.push('0');
                                            proof {
                                                assert(body@ =~= seq!['0']);
                                            }
                                        }
                                        let out = if nc {
                                            body
                                        } else {
                                            crate::numfmt::commas(&body)
                                        };
                                        Ok(Expr::String(chars_to_string(&out)))
                                    }
                                } else {
                                    let k = sat64(dec, 0, 127) as usize;
                                    let cs = fixed_str(&xq, k, nc);
                                    Ok(Expr::String(chars_to_string(&cs)))
                                }
                            },
                            _ => Err(perr(r)),
                        },
                    },
                },
            }
        },
        Rule::len | Rule::lenb => {
            match eval_arg(&n.children, 0, r, f) {
                Err(e) => Err(e),
                Ok(a0) => match a0 {
                    Expr::String(s) => {
                        let ll: usize = if matches!(r, Rule::len) {
                            s.as_str().unicode_len()
                        } else {
                            str_bytes(&s).len()
                        };
                        if ll as u64 > 0x7fff_ffff_ffff_ffff {
                            Err(perr(r))
                        } else {
                            Ok(Expr::Number(Num::int_c(ll as i64)))
                        }
                    },
                    _ => Err(perr(r)),
                },
            }
        },
        Rule::lower | Rule::upper => {
            match eval_arg(&n.children, 0, r, f) {
                Err(e) => Err(e),
                Ok(a0) => match a0 {
                    Expr::String(s) => Ok(
                        Expr::String(
                            if matches!(r, Rule::lower) {
                                str_lower(s.as_str())
                            } else {
                                str_upper(s.as_str())
                            },
                        ),
                    ),
                    _ => Err(perr(r)),
                },
            }
        },
        Rule::rept => {
            match eval_arg(&n.children, 0, r, f) {
                Err(e) => Err(e),
                Ok(a0) => match eval_arg(&n.children, 1, r, f) {
                    Err(e) => Err(e),
                    Ok(a1) => match (a0, a1) {
                        (Expr::String(s), Expr::Number(kq)) => {
                            let (kn, _kd) = kq.parts();
                            if kn < 0 {
                                Err(perr(r))
                            } else {
                                let k = sat64(kq.trunc_q(), 0, 0xffff_ffff) as u64;
                                let cs = string_to_chars(s.as_str());
                                let rep = rep_chars(&cs, k);
                                Ok(Expr::String(chars_to_string(&rep)))
                            }
                        },
                        _ => Err(perr(r)),
                    },
                },
            }
        },
        Rule::replace | Rule::replaceb => {
            match eval_arg(&n.children, 0, r, f) {
                Err(e) => Err(e),
                Ok(a0) => match eval_arg(&n.children, 1, r, f) {
                    Err(e) => Err(e),
                    Ok(a1) => match eval_arg(&n.children, 2, r, f) {
                        Err(e) => Err(e),
                        Ok(a2) => match eval_arg(&n.children, 3, r, f) {
                            Err(e) => Err(e),
                            Ok(a3) => match (a0, a1, a2, a3) {
                                (
                                    Expr::String(s),
                                    Expr::Number(sq),
                                    Expr::Number(lq),
                                    Expr::String(new),
                                ) => {
                                    let st64 = sq.trunc_q();
                                    let sum_t: i128 = trunc_sum(&sq, &lq);
                                    if st64 < 1 || sum_t < 1 {
                                        Err(perr(r))
                                    } else {
                                        let st1 = (sat64(st64, 1, 0xffff_ffff) - 1) as usize;
                                        let cut128: i128 = sum_t - 1;
                                        let cut: usize = if cut128 > 0xffff_ffff {
                                            0xffff_ffff
                                        } else {
                                            cut128 as usize
                                        };
                                        let nv = string_to_chars(new.as_str());
                                        if matches!(r, Rule::replace) {
                                            let cs = string_to_chars(s.as_str());
                                            let a = if st1 < cs.len() {
                                                st1
                                            } else {
                                                cs.len()
                                            };
                                            let b = if cut < cs.len() {
                                                cut
                                            } else {
                                                cs.len()
                                            };
                                            let mut out = seg(&cs, 0, a);
                                            extend_chars(&mut out, &nv);
                                            let tail = seg(&cs, b, cs.len());
                                            extend_chars(&mut out, &tail);
                                            proof {
                                                assert(out@ =~= s@.take(
                                                    min_i(st1 as int, s@.len() as int),
                                                ) + new@ + s@.skip(
                                                    min_i(cut as int, s@.len() as int),
                                                ));
                                            }
                                            Ok(Expr::String(chars_to_string(&out)))
                                        } else {
                                            let bs = str_bytes(&s);
                                            let a = if st1 < bs.len() {
                                                st1
                                            } else {
                                                bs.len()
                                            };
                                            let b = if cut < bs.len() {
                                                cut
                                            } else {
                                                bs.len()
                                            };
                                            let headb = seg_u8(&bs, 0, a);
                                            let tailb = seg_u8(&bs, b, bs.len());
                                            let head = bytes_lossy(&headb);
                                            let tail = bytes_lossy(&tailb);
                                            let mut out = string_to_chars(head.as_str());
                                            extend_chars(&mut out, &nv);
                                            let tv = string_to_chars(tail.as_str());
                                            extend_chars(&mut out, &tv);
                                            proof {
                                                assert(headb@ =~= encode_utf8(s@).take(
                                                    min_i(st1 as int, encode_utf8(s@).len() as int),
                                                ));
                                                assert(tailb@ =~= encode_utf8(s@).skip(
                                                    min_i(cut as int, encode_utf8(s@).len() as int),
                                                ));
                                            }
                                            Ok(Expr::String(chars_to_string(&out)))
                                        }
                                    }
                                },
                                _ => Err(perr(r)),
                            },
                        },
                    },
                },
            }
        },
        Rule::textjoin => {
            match eval_arg(&n.children, 0, r, f) {
                Err(e) => Err(e),
                Ok(a0) => match eval_arg(&n.children, 1, r, f) {
                    Err(e) => Err(e),
                    Ok(a1) => match eval_arg(&n.children, 2, r, f) {
                        Err(e) => Err(e),
                        Ok(a2) => match eval_rest(&n.children, 3, f) {
                            Err(e) => Err(e),
                            Ok(vs) => match (a0, a1, a2) {
                                (Expr::String(delim), Expr::Bool(ig), Expr::String(s0)) => {
                                    fold_join_x(&vs, &s0, &delim, ig, r)
                                },
                                _ => Err(perr(r)),
                            },
                        },
                    },
                },
            }
        },
        Rule::trim => {
            match eval_arg(&n.children, 0, r, f) {
                Err(e) => Err(e),
                Ok(a0) => match a0 {
                    Expr::String(s) => {
                        let cs = string_to_chars(s.as_str());
                        let mut a: usize = 0;
                        while a < cs.len() && is_ws(cs[a])
                            invariant
                                0 <= a <= cs@.len(),
                                crate::strings::skip_ws_spec(cs@, 0) == crate::strings::skip_ws_spec(cs@, a as int),
                            decreases cs@.len() - a,
                        {
                            a += 1;
                        }
                        let mut b: usize = cs.len();
                        while b > a && is_ws(cs[b - 1])
                            invariant
                                a <= b <= cs@.len(),
                                crate::strings::skip_ws_spec(cs@, 0) == a,
                                crate::strings::rskip_ws_spec(cs@, cs@.len() as int)
                                    == crate::strings::rskip_ws_spec(cs@, b as int),
                            decreases b,
                        {
                            b -= 1;
                        }
                        let piece = seg(&cs, a, b);
                        proof {
                            crate::strings::lemma_rskip_ws_le(cs@, b as int);
                            if b > a {
                                assert(crate::strings::rskip_ws_spec(cs@, b as int) == b);
                                assert(piece@ =~= trim_spec(s@));
                            } else {
                                assert(piece@.len() == 0);
                                let bb = crate::strings::rskip_ws_spec(cs@, b as int);
                                if bb >= a {
                                    assert(piece@ =~= trim_spec(s@));
                                } else {
                                    assert(trim_spec(s@) =~= Seq::<char>::empty());
                                    assert(piece@ =~= trim_spec(s@));
                                }
                            }
                        }
                        Ok(Expr::String(chars_to_string(&piece)))
                    },
                    _ => Err(perr(r)),
                },
            }
        },
        Rule::t => {
            match eval_arg(&n.children, 0, r, f) {
                Err(e) => Err(e),
                Ok(a0) => match a0 {
                    Expr::String(s) => Ok(Expr::String(s)),
                    _ => Ok(Expr::String(String::new())),
                },
            }
        },
        _ => {
            // proper
            match eval_arg(&n.children, 0, r, f) {
                Err(e) => Err(e),
                Ok(a0) => match a0 {
                    Expr::String(s) => {
                        let cs = string_to_chars(s.as_str());
                        let out = proper_tail(&cs, 0);
                        Ok(Expr::String(chars_to_string(&out)))
                    },
                    _ => Err(perr(r)),
                },
            }
        },
    }
}

} // verus!