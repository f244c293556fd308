//! The date and time functions.
//!
//! Accessors accept either a native date or time value or a string in
//! the fixed `M/D/Y` slash form (dates) or `H:MM:SS` colon form
//! (times, surrounding quote characters stripped); a malformed string
//! or an impossible calendar day is a `Parser` error.

use crate::date::civil_from_days;
use crate::date::civil_from_days_spec;
use crate::date::days_from_civil;
use crate::date::iso_week;
use crate::date::iso_week_spec;
use crate::date::shift_months;
use crate::date::shift_months_spec;
use crate::date::utc_now;
use crate::date::valid_ymd;
use crate::date::weekday_from_days;
use crate::date::year_in_range;
use crate::date::DateVal;
use crate::date::DatetimeVal;
use crate::date::TimeVal;
use crate::eval::arg_spec;
use crate::eval::eval_arg;
use crate::eval::num_or_null;
use crate::eval::num_or_null_v;
use crate::eval::ok_wf;
use crate::eval::perr;
use crate::eval::perr_v;
use crate::eval::rv;
use crate::eval::Fetcher;
use crate::expr::wf_exprv;
use crate::expr::Expr;
use crate::expr::ExprV;
use crate::node::children_view;
use crate::node::lemma_children_view;
use crate::node::wf_node;
use crate::node::Node;
use crate::node::NodeV;
use crate::num::rat_sub_spec;
use crate::num::rat_trunc_spec;
use crate::num::Num;
use crate::numfmt::all_digits;
use crate::numfmt::digits_val;
use crate::parse::is_digit_char;
use crate::rules::Rule;
use crate::strings::string_to_chars;
use crate::Error;
use crate::ErrV;
use vstd::prelude::*;

verus! {

broadcast use vstd::std_specs::vec::axiom_vec_decreases_to_view;

pub open spec fn is_date_rule(r: Rule) -> bool {
    match r {
        Rule::date | Rule::time | Rule::year | Rule::month | Rule::day | Rule::days | Rule::edate
            | Rule::eomonth | Rule::datevalue | Rule::timevalue | Rule::hour | Rule::minute
            | Rule::second | Rule::isoweeknum | Rule::weekday | Rule::now | Rule::today => true,
        _ => false,
    }
}

/// Exec twin of `is_date_rule`.
pub fn is_date_rule_x(r: Rule) -> (b: bool)
    ensures
        b == is_date_rule(r),
{
    match r {
        Rule::date | Rule::time | Rule::year | Rule::month | Rule::day | Rule::days | Rule::edate
            | Rule::eomonth | Rule::datevalue | Rule::timevalue | Rule::hour | Rule::minute
            | Rule::second | Rule::isoweeknum | Rule::weekday | Rule::now | Rule::today => true,
        _ => false,
    }
}

/// Decimal field accepted by the string forms: digits naming a value
/// that fits an unsigned 32-bit number.
pub open spec fn field_u32_spec(s: Seq<char>) -> Option<int> {
    if all_digits(s) && 1 <= s.len() <= 18 && digits_val(s) <= 0xffff_ffff {
        Some(digits_val(s))
    } else {
        None
    }
}

/// Exec twin of `field_u32_spec`.
fn field_u32(v: &Vec<char>, a: usize, b: usize) -> (r: Option<u64>)
    requires
        a <= b <= v@.len(),
    ensures
        match r {
            Some(w) => field_u32_spec(v@.subrange(a as int, b as int)) == Some(w as int) && w
                <= 0xffff_ffff,
            None => field_u32_spec(v@.subrange(a as int, b as int)) is None,
        },
{
    let ghost fld = v@.subrange(a as int, b as int);
    let n = b - a;
    if n < 1 || n > 18 {
        return None;
    }
    let piece = crate::parse::seg(v, a, b);
    let mut ok = true;
    let mut i: usize = 0;
    while i < n
        invariant
            0 <= i <= n == piece@.len(),
            piece@ == fld,
            ok == (forall|j: int| 0 <= j < i ==> is_digit_char(#[trigger] piece@[j])),
        decreases n - i,
    {
        let u = piece[i] as u32;
        if !(0x30 <= u && u <= 0x39) {
            ok = false;
        }
        i += 1;
    }
    if !ok {
        proof {
            assert(!all_digits(fld));
        }
        return None;
    }
    proof {
        assert(all_digits(fld));
    }
    let w = crate::numfmt::digits_value(&piece);
    if w > 0xffff_ffff {
        None
    } else {
        Some(w)
    }
}

/// Position of the next `sep` at or after `i`, or the length.
pub open spec fn sep_pos_spec(s: Seq<char>, i: int, sep: char) -> int
    decreases s.len() - i,
{
    if 0 <= i < s.len() {
        if s[i] == sep {
            i
        } else {
            sep_pos_spec(s, i + 1, sep)
        }
    } else {
        s.len() as int
    }
}

fn sep_pos(v: &Vec<char>, i: usize, sep: char) -> (r: usize)
    requires
        i <= v@.len(),
    ensures
        r as int == sep_pos_spec(v@, i as int, sep),
        i <= r <= v@.len(),
{
    let mut k = i;
    while k < v.len() && v[k] != sep
        invariant
            i <= k <= v@.len(),
            sep_pos_spec(v@, i as int, sep) == sep_pos_spec(v@, k as int, sep),
        decreases v@.len() - k,
    {
        k += 1;
    }
    k
}

/// All remaining `sep`-separated fields parse as 32-bit numbers.
pub open spec fn rest_fields_ok_spec(s: Seq<char>, i: int, sep: char) -> bool
    decreases s.len() - i,
{
    if i > s.len() {
        true
    } else {
        let p = sep_pos_spec(s, i, sep);
        if field_u32_spec(s.subrange(i, p)) is None {
            false
        } else if p < s.len() && p + 1 > i {
            rest_fields_ok_spec(s, p + 1, sep)
        } else {
            true
        }
    }
}

fn rest_fields_ok(v: &Vec<char>, i: usize, sep: char) -> (r: bool)
    requires
        i <= v@.len(),
    ensures
        r == rest_fields_ok_spec(v@, i as int, sep),
    decreases v@.len() + 1 - i,
{
    let p = sep_pos(v, i, sep);
    if matches!(field_u32(v, i, p), None) {
        false
    } else if p < v.len() {
        rest_fields_ok(v, p + 1, sep)
    } else {
        true
    }
}

/// Wrap an unsigned 32-bit value to a signed one, as an `as` cast.
pub open spec fn wrap_i32_spec(v: int) -> int {
    if v > 0x7fff_ffff {
        v - 0x1_0000_0000
    } else {
        v
    }
}

/// The `M/D/Y` date-string form: three slash-separated numbers, any
/// further fields checked and ignored, the year wrapped to 32 bits.
#[verifier::opaque]
pub open spec fn mdy_spec(s: Seq<char>) -> Option<(int, int, int)> {
    let p1 = sep_pos_spec(s, 0, '/');
    if p1 >= s.len() {
        None
    } else {
        let p2 = sep_pos_spec(s, p1 + 1, '/');
        if p2 >= s.len() {
            None
        } else {
            let p3 = sep_pos_spec(s, p2 + 1, '/');
            match field_u32_spec(s.subrange(0, p1)) {
                None => None,
                Some(m) => match field_u32_spec(s.subrange(p1 + 1, p2)) {
                    None => None,
                    Some(d) => match field_u32_spec(s.subrange(p2 + 1, p3)) {
                        None => None,
                        Some(y) => if p3 < s.len() && !rest_fields_ok_spec(s, p3 + 1, '/') {
                            None
                        } else {
                            Some((m, d, wrap_i32_spec(y)))
                        },
                    },
                },
            }
        }
    }
}

/// Exec twin of `mdy_spec`.
fn mdy(v: &Vec<char>) -> (r: Option<(u64, u64, i64)>)
    ensures
        match r {
            Some(t) => mdy_spec(v@) == Some((t.0 as int, t.1 as int, t.2 as int)) && t.0
                <= 0xffff_ffff && t.1 <= 0xffff_ffff && -0x8000_0000 <= t.2 <= 0x7fff_ffff,
            None => mdy_spec(v@) is None,
        },
{
    proof {
        reveal(mdy_spec);
    }
    let p1 = sep_pos(v, 0, '/');
    if p1 >= v.len() {
        return None;
    }
    let p2 = sep_pos(v, p1 + 1, '/');
    if p2 >= v.len() {
        return None;
    }
    let p3 = sep_pos(v, p2 + 1, '/');
    match field_u32(v, 0, p1) {
        None => None,
        Some(m) => match field_u32(v, p1 + 1, p2) {
            None => None,
            Some(d) => match field_u32(v, p2 + 1, p3) {
                None => None,
                Some(y) => {
                    if p3 < v.len() && !rest_fields_ok(v, p3 + 1, '/') {
                        None
                    } else {
                        let yw: i64 = if y > 0x7fff_ffff {
                            y as i64 - 0x1_0000_0000
                        } else {
                            y as i64
                        };
                        Some((m, d, yw))
                    }
                },
            },
        },
    }
}

/// Leading and trailing copies of `c` removed.
pub open spec fn strip_spec(s: Seq<char>, c: char) -> Seq<char> {
    let a = lstrip_spec(s, c, 0);
    let b = rstrip_spec(s, c, s.len() as int);
    if a <= b {
        s.subrange(a, b)
    } else {
        Seq::empty()
    }
}

pub open spec fn lstrip_spec(s: Seq<char>, c: char, i: int) -> int
    decreases s.len() - i,
{
    if 0 <= i < s.len() && s[i] == c {
        lstrip_spec(s, c, i + 1)
    } else {
        i
    }
}

pub open spec fn rstrip_spec(s: Seq<char>, c: char, j: int) -> int
    decreases j,
{
    if 0 < j <= s.len() && s[j - 1] == c {
        rstrip_spec(s, c, j - 1)
    } else {
        j
    }
}

/// Exec twin of `strip_spec`.
fn strip_char(v: &Vec<char>, c: char) -> (r: Vec<char>)
    ensures
        r@ == strip_spec(v@, c),
{
    let mut a: usize = 0;
    while a < v.len() && v[a] == c
        invariant
            0 <= a <= v@.len(),
            lstrip_spec(v@, c, 0) == lstrip_spec(v@, c, a as int),
        decreases v@.len() - a,
    {
        a += 1;
    }
    let mut b: usize = v.len();
    while b > a && v[b - 1] == c
        invariant
            a <= b <= v@.len(),
            lstrip_spec(v@, c, 0) == a,
            rstrip_spec(v@, c, v@.len() as int) == rstrip_spec(v@, c, b as int),
        decreases b,
    {
        b -= 1;
    }
    let piece = crate::parse::seg(v, a, b);
    proof {
        lemma_rstrip_le(v@, c, b as int);
        if b > a {
            assert(rstrip_spec(v@, c, b as int) == b);
            assert(piece@ =~= strip_spec(v@, c));
        } else {
            assert(piece@.len() == 0);
            let bb = rstrip_spec(v@, c, b as int);
            if bb >= a {
                assert(bb == a);
                assert(piece@ =~= strip_spec(v@, c));
            } else {
                assert(strip_spec(v@, c) =~= Seq::<char>::empty());
                assert(piece@ =~= strip_spec(v@, c));
            }
        }
    }
    piece
}

/// `rstrip_spec` never moves past its bound.
proof fn lemma_rstrip_le(s: Seq<char>, c: char, j: int)
    ensures
        rstrip_spec(s, c, j) <= j,
    decreases j,
{
    if 0 < j <= s.len() && s[j - 1] == c {
        lemma_rstrip_le(s, c, j - 1);
    }
}

/// The `H:MM:SS` time-string form, quote characters stripped from
/// both ends first.
#[verifier::opaque]
pub open spec fn hms_spec(s0: Seq<char>) -> Option<(int, int, int)> {
    let s = strip_spec(strip_spec(s0, '\''), '"');
    let p1 = sep_pos_spec(s, 0, ':');
    if p1 >= s.len() {
        None
    } else {
        let p2 = sep_pos_spec(s, p1 + 1, ':');
        if p2 >= s.len() {
            None
        } else {
            let p3 = sep_pos_spec(s, p2 + 1, ':');
            match field_u32_spec(s.subrange(0, p1)) {
                None => None,
                Some(h) => match field_u32_spec(s.subrange(p1 + 1, p2)) {
                    None => None,
                    Some(mi) => match field_u32_spec(s.subrange(p2 + 1, p3)) {
                        None => None,
                        Some(sec) => if p3 < s.len() && !rest_fields_ok_spec(s, p3 + 1, ':') {
                            None
                        } else {
                            Some((h, mi, sec))
                        },
                    },
                },
            }
        }
    }
}

/// Exec twin of `hms_spec`.
fn hms(v: &Vec<char>) -> (r: Option<(u64, u64, u64)>)
    ensures
        match r {
            Some(t) => hms_spec(v@) == Some((t.0 as int, t.1 as int, t.2 as int)) && t.0
                <= 0xffff_ffff && t.1 <= 0xffff_ffff && t.2 <= 0xffff_ffff,
            None => hms_spec(v@) is None,
        },
{
    proof {
        reveal(hms_spec);
    }
    let s1 = strip_char(v, '\'');
    let s = strip_char(&s1, '"');
    let p1 = sep_pos(&s, 0, ':');
    if p1 >= s.len() {
        return None;
    }
    let p2 = sep_pos(&s, p1 + 1, ':');
    if p2 >= s.len() {
        return None;
    }
    let p3 = sep_pos(&s, p2 + 1, ':');
    match field_u32(&s, 0, p1) {
        None => None,
        Some(h) => match field_u32(&s, p1 + 1, p2) {
            None => None,
            Some(mi) => match field_u32(&s, p2 + 1, p3) {
                None => None,
                Some(sec) => {
                    if p3 < s.len() && !rest_fields_ok(&s, p3 + 1, ':') {
                        None
                    } else {
                        Some((h, mi, sec))
                    }
                },
            },
        },
    }
}

/// Clamp to a closed range, the way casting a double saturates.
pub open spec fn sat_spec(t: int, lo: int, hi: int) -> int {
    if t < lo {
        lo
    } else if t > hi {
        hi
    } else {
        t
    }
}

pub fn sat64(t: i64, lo: i64, hi: i64) -> (r: i64)
    requires
        lo <= hi,
    ensures
        r as int == sat_spec(t as int, lo as int, hi as int),
        lo <= r <= hi,
{
    if t < lo {
        lo
    } else if t > hi {
        hi
    } else {
        t
    }
}

/// A date operand: a native date, or a date string.
pub open spec fn date_of_spec(v: ExprV, r: Rule) -> Result<(int, int, int), ErrV> {
    match v {
        ExprV::Date { y, m, d } => Ok((y, m, d)),
        ExprV::Str(s) => match mdy_spec(s) {
            None => Err(perr_v(r)),
            Some((m, d, y)) => if valid_ymd(y, m, d) {
                Ok((y, m, d))
            } else {
                Err(perr_v(r))
            },
        },
        _ => Err(perr_v(r)),
    }
}

/// Exec twin of `date_of_spec`.
fn date_of(v: &Expr, r: Rule) -> (res: Result<DateVal, Error>)
    requires
        wf_exprv(v@),
    ensures
        res is Ok ==> (res->Ok_0.wf() && date_of_spec(v@, r) == Ok::<(int, int, int), ErrV>(
            (res->Ok_0.yi(), res->Ok_0.moni(), res->Ok_0.dayi()),
        )),
        res is Err ==> date_of_spec(v@, r) == Err::<(int, int, int), ErrV>(res->Err_0@),
{
    match v {
        Expr::Date(dt) => Ok(*dt),
        Expr::String(s) => {
            let cs = string_to_chars(s.as_str());
            match mdy(&cs) {
                None => Err(perr(r)),
                Some((m, d, y)) => match DateVal::make(y, m as i64, d as i64) {
                    Some(dt) => Ok(dt),
                    None => Err(perr(r)),
                },
            }
        },
        _ => Err(perr(r)),
    }
}

/// A time operand: a native time, or a time string.
pub open spec fn time_of_spec(v: ExprV, r: Rule) -> Result<(int, int, int), ErrV> {
    match v {
        ExprV::Time { h, mi, s } => Ok((h, mi, s)),
        ExprV::Str(t) => match hms_spec(t) {
            None => Err(perr_v(r)),
            Some((h, mi, s)) => if 0 <= h < 24 && 0 <= mi < 60 && 0 <= s < 60 {
                Ok((h, mi, s))
            } else {
                Err(perr_v(r))
            },
        },
        _ => Err(perr_v(r)),
    }
}

/// Exec twin of `time_of_spec`.
fn time_of(v: &Expr, r: Rule) -> (res: Result<TimeVal, Error>)
    requires
        wf_exprv(v@),
    ensures
        res is Ok ==> (res->Ok_0.wf() && time_of_spec(v@, r) == Ok::<(int, int, int), ErrV>(
            (res->Ok_0.hi(), res->Ok_0.mini(), res->Ok_0.seci()),
        )),
        res is Err ==> time_of_spec(v@, r) == Err::<(int, int, int), ErrV>(res->Err_0@),
{
    match v {
        Expr::Time(t) => Ok(*t),
        Expr::String(s) => {
            let cs = string_to_chars(s.as_str());
            match hms(&cs) {
                None => Err(perr(r)),
                Some((h, mi, sec)) => match TimeVal::make(h as i64, mi as i64, sec as i64) {
                    Some(t) => Ok(t),
                    None => Err(perr(r)),
                },
            }
        },
        _ => Err(perr(r)),
    }
}

/// The month shift shared by `EDATE` and `EOMONTH`; the day is
/// clamped, and for `EOMONTH` forced, to the target month's last day.
#[verifier::opaque]
pub open spec fn edate_spec(v: ExprV, num: ExprV, r: Rule, to_end: bool) -> Result<ExprV, ErrV> {
    match date_of_spec(v, r) {
        Err(e) => Err(e),
        Ok((y, m, d)) => match num {
            ExprV::Number { n: nn, d: nd } => {
                let delta = sat_spec(rat_trunc_spec(nn, nd), -10_000_000, 10_000_000);
                let s = shift_months_spec(y, m, d, delta);
                if year_in_range(s.0) {
                    if to_end {
                        Ok(
                            ExprV::Date {
                                y: s.0,
                                m: s.1,
                                d: crate::date::days_in_month(s.0, s.1),
                            },
                        )
                    } else {
                        Ok(ExprV::Date { y: s.0, m: s.1, d: s.2 })
                    }
                } else {
                    Err(perr_v(r))
                }
            },
            _ => Err(perr_v(r)),
        },
    }
}

/// The date and time category of `eval_spec`.
#[verifier::opaque]
pub open spec fn eval_date_spec(n: NodeV) -> Result<ExprV, ErrV>
    decreases n, 1int, 0int,
{
    let r = n.rule;
    if r == Rule::now || r == Rule::today {
        // non-deterministic; the spec value is unused
        Ok(ExprV::Null)
    } else if r == Rule::date {
        match arg_spec(n.children, 0, r) {
            Err(e) => Err(e),
            Ok(a0) => match arg_spec(n.children, 1, r) {
                Err(e) => Err(e),
                Ok(a1) => match arg_spec(n.children, 2, r) {
                    Err(e) => Err(e),
                    Ok(a2) => match (a0, a1, a2) {
                        (
                            ExprV::Number { n: yn, d: yd },
                            ExprV::Number { n: mn, d: md },
                            ExprV::Number { n: dn, d: dd },
                        ) => {
                            let y = sat_spec(rat_trunc_spec(yn, yd), -0x8000_0000, 0x7fff_ffff);
                            let m = sat_spec(rat_trunc_spec(mn, md), 0, 0xffff_ffff);
                            let d = sat_spec(rat_trunc_spec(dn, dd), 0, 0xffff_ffff);
                            if valid_ymd(y, m, d) {
                                Ok(ExprV::Date { y, m, d })
                            } else {
                                Err(perr_v(r))
                            }
                        },
                        _ => Err(perr_v(r)),
                    },
                },
            },
        }
    } else if r == Rule::time {
        match arg_spec(n.children, 0, r) {
            Err(e) => Err(e),
            Ok(a0) => match arg_spec(n.children, 1, r) {
                Err(e) => Err(e),
                Ok(a1) => match arg_spec(n.children, 2, r) {
                    Err(e) => Err(e),
                    Ok(a2) => match (a0, a1, a2) {
                        (
                            ExprV::Number { n: hn, d: hd },
                            ExprV::Number { n: mn, d: md },
                            ExprV::Number { n: sn, d: sd },
                        ) => {
                            let h = sat_spec(rat_trunc_spec(hn, hd), 0, 0xffff_ffff);
                            let mi = sat_spec(rat_trunc_spec(mn, md), 0, 0xffff_ffff);
                            let s = sat_spec(rat_trunc_spec(sn, sd), 0, 0xffff_ffff);
                            if 0 <= h < 24 && 0 <= mi < 60 && 0 <= s < 60 {
                                Ok(ExprV::Time { h, mi, s })
                            } else {
                                Err(perr_v(r))
                            }
                        },
                        _ => Err(perr_v(r)),
                    },
                },
            },
        }
    } else if r == Rule::days {
        match arg_spec(n.children, 0, r) {
            Err(e) => Err(e),
            Ok(a0) => match arg_spec(n.children, 1, r) {
                Err(e) => Err(e),
                Ok(a1) => match (a0, a1) {
                    (ExprV::Date { y: y1, m: m1, d: d1 }, ExprV::Date { y: y2, m: m2, d: d2 }) => {
                        Ok(
                            ExprV::Number {
                                n: days_from_civil(y1, m1, d1) - days_from_civil(y2, m2, d2),
                                d: 1,
                            },
                        )
                    },
                    (ExprV::Str(s1), ExprV::Str(s2)) => match date_of_spec(ExprV::Str(s1), r) {
                        Err(e) => Err(e),
                        Ok((y1, m1, d1)) => match date_of_spec(ExprV::Str(s2), r) {
                            Err(e) => Err(e),
                            Ok((y2, m2, d2)) => Ok(
                                ExprV::Number {
                                    n: days_from_civil(y1, m1, d1) - days_from_civil(y2, m2, d2),
                                    d: 1,
                                },
                            ),
                        },
                    },
                    (ExprV::Number { n: an, d: ad }, ExprV::Number { n: bn, d: bd }) => Ok(
                        num_or_null_v(rat_sub_spec(an, ad, bn, bd)),
                    ),
                    _ => Err(perr_v(r)),
                },
            },
        }
    } else if r == Rule::edate || r == Rule::eomonth {
        match arg_spec(n.children, 0, r) {
            Err(e) => Err(e),
            Ok(a0) => match arg_spec(n.children, 1, r) {
                Err(e) => Err(e),
                Ok(a1) => edate_spec(a0, a1, r, r == Rule::eomonth),
            },
        }
    } else if r == Rule::datevalue {
        match arg_spec(n.children, 0, r) {
            Err(e) => Err(e),
            Ok(a0) => match a0 {
                ExprV::Str(s) => match date_of_spec(ExprV::Str(s), r) {
                    Err(e) => Err(e),
                    Ok((y, m, d)) => Ok(ExprV::Date { y, m, d }),
                },
                _ => Err(perr_v(r)),
            },
        }
    } else if r == Rule::timevalue {
        match arg_spec(n.children, 0, r) {
            Err(e) => Err(e),
            Ok(a0) => match a0 {
                ExprV::Str(s) => match time_of_spec(ExprV::Str(s), r) {
                    Err(e) => Err(e),
                    Ok((h, mi, sec)) => Ok(ExprV::Time { h, mi, s: sec }),
                },
                _ => Err(perr_v(r)),
            },
        }
    } else if r == Rule::hour || r == Rule::minute || r == Rule::second {
        match arg_spec(n.children, 0, r) {
            Err(e) => Err(e),
            Ok(a0) => match time_of_spec(a0, r) {
                Err(e) => Err(e),
                Ok((h, mi, sec)) => Ok(
                    ExprV::Number {
                        n: if r == Rule::hour {
                            h
                        } else if r == Rule::minute {
                            mi
                        } else {
                            sec
                        },
                        d: 1,
                    },
                ),
            },
        }
    } else if r == Rule::weekday {
        match arg_spec(n.children, 0, r) {
            Err(e) => Err(e),
            Ok(a0) => match date_of_spec(a0, r) {
                Err(e) => Err(e),
                Ok((y, m, d)) => Ok(
                    ExprV::Number { n: weekday_from_days(days_from_civil(y, m, d)), d: 1 },
                ),
            },
        }
    } else if r == Rule::isoweeknum {
        match arg_spec(n.children, 0, r) {
            Err(e) => Err(e),
            Ok(a0) => match date_of_spec(a0, r) {
                Err(e) => Err(e),
                Ok((y, m, d)) => Ok(ExprV::Number { n: iso_week_spec(y, m, d), d: 1 }),
            },
        }
    } else {
        // year, month, day
        match arg_spec(n.children, 0, r) {
            Err(e) => Err(e),
            Ok(a0) => match date_of_spec(a0, r) {
                Err(e) => Err(e),
                Ok((y, m, d)) => Ok(
                    ExprV::Number {
                        n: if r == Rule::year {
                            y
                        } else if r == Rule::month {
                            m
                        } else {
                            d
                        },
                        d: 1,
                    },
                ),
            },
        }
    }
}

/// Exec twin of `eval_date_spec`.
#[verifier::rlimit(100)]
pub fn eval_date<F: Fetcher>(n: &Node, f: &mut F) -> (res: Result<Expr, Error>)
    requires
        wf_node(n@),
        is_date_rule(n@.rule),
    ensures
        crate::eval::is_det(n@) ==> rv(res) == eval_date_spec(n@),
        ok_wf(res),
        n@.rule == Rule::now ==> (rv(res) matches Ok(e) && e is Datetime),
        n@.rule == Rule::today ==> (rv(res) matches Ok(e) && e is Date),
    decreases n, 1int, 0int,
{
    proof {
        reveal(eval_date_spec);
        reveal(edate_spec);
    }
    proof {
        lemma_children_view(n.children@);
        assert(n@.children == children_view(n.children@));
        crate::eval::lemma_node_kids(n@);
    }
    let r = n.rule;
    match r {
        Rule::now => {
            let t = utc_now();
            Ok(Expr::Datetime(t))
        },
        Rule::today => {
            let t = utc_now();
            Ok(Expr::Date(t.date))
        },
        Rule::date => {
            match eval_arg(&n.children, 0, r, f) {
                Err(e) => Err(e),
                Ok(a0) => match eval_arg(&n.children, 1, r, f) {
                    Err(e) => Err(e),
                    Ok(a1) => match eval_arg(&n.children, 2, r, f) {
                        Err(e) => Err(e),
                        Ok(a2) => match (a0, a1, a2) {
                            (Expr::Number(yq), Expr::Number(mq), Expr::Number(dq)) => {
                                let y = sat64(yq.trunc_q(), -0x8000_0000, 0x7fff_ffff);
                                let m = sat64(mq.trunc_q(), 0, 0xffff_ffff);
                                let d = sat64(dq.trunc_q(), 0, 0xffff_ffff);
                                match DateVal::make(y, m, d) {
                                    Some(dt) => Ok(Expr::Date(dt)),
                                    None => Err(perr(r)),
                                }
                            },
                            _ => Err(perr(r)),
                        },
                    },
                },
            }
        },
        Rule::time => {
            match eval_arg(&n.children, 0, r, f) {
                Err(e) => Err(e),
                Ok(a0) => match eval_arg(&n.children, 1, r, f) {
                    Err(e) => Err(e),
                    Ok(a1) => match eval_arg(&n.children, 2, r, f) {
                        Err(e) => Err(e),
                        Ok(a2) => match (a0, a1, a2) {
                            (Expr::Number(hq), Expr::Number(mq), Expr::Number(sq)) => {
                                let h = sat64(hq.trunc_q(), 0, 0xffff_ffff);
                                let mi = sat64(mq.trunc_q(), 0, 0xffff_ffff);
                                let s = sat64(sq.trunc_q(), 0, 0xffff_ffff);
                                match TimeVal::make(h, mi, s) {
                                    Some(t) => Ok(Expr::Time(t)),
                                    None => Err(perr(r)),
                                }
                            },
                            _ => Err(perr(r)),
                        },
                    },
                },
            }
        },
        Rule::days => {
            match eval_arg(&n.children, 0, r, f) {
                Err(e) => Err(e),
                Ok(a0) => match eval_arg(&n.children, 1, r, f) {
                    Err(e) => Err(e),
                    Ok(a1) => match (a0, a1) {
                        (Expr::Date(d1), Expr::Date(d2)) => {
                            let diff: i64 = d1.day_number() - d2.day_number();
                            Ok(Expr::Number(Num::int_c(diff)))
                        },
                        (Expr::String(s1), Expr::String(s2)) => {
                            match date_of(&Expr::String(s1), r) {
                                Err(e) => Err(e),
                                Ok(d1) => match date_of(&Expr::String(s2), r) {
                                    Err(e) => Err(e),
                                    Ok(d2) => {
                                        let diff: i64 = d1.day_number() - d2.day_number();
                                        Ok(Expr::Number(Num::int_c(diff)))
                                    },
                                },
                            }
                        },
                        (Expr::Number(x), Expr::Number(y)) => Ok(num_or_null(x.sub_q(&y))),
                        _ => Err(perr(r)),
                    },
                },
            }
        },
        Rule::edate | Rule::eomonth => {
            match eval_arg(&n.children, 0, r, f) {
                Err(e) => Err(e),
                Ok(a0) => match eval_arg(&n.children, 1, r, f) {
                    Err(e) => Err(e),
                    Ok(a1) => match date_of(&a0, r) {
                        Err(e) => Err(e),
                        Ok(dt) => match a1 {
                            Expr::Number(q) => {
                                let delta = sat64(q.trunc_q(), -10_000_000, 10_000_000);
                                match shift_months(&dt, delta) {
                                    Some(sd) => {
                                        if matches!(r, Rule::eomonth) {
                                            let (sy, sm, _sdd) = sd.ymd();
                                            let dim = crate::date::days_in_month_x(sy, sm);
                                            match DateVal::make(
                                                sy as i64,
                                                sm as i64,
                                                dim as i64,
                                            ) {
                                                Some(d2) => Ok(Expr::Date(d2)),
                                                None => Err(perr(r)),
                                            }
                                        } else {
                                            Ok(Expr::Date(sd))
                                        }
                                    },
                                    None => Err(perr(r)),
                                }
                            },
                            _ => Err(perr(r)),
                        },
                    },
                },
            }
        },
        Rule::datevalue => {
            match eval_arg(&n.children, 0, r, f) {
                Err(e) => Err(e),
                Ok(a0) => match a0 {
                    Expr::String(s) => match date_of(&Expr::String(s), r) {
                        Err(e) => Err(e),
                        Ok(dt) => Ok(Expr::Date(dt)),
                    },
                    _ => Err(perr(r)),
                },
            }
        },
        Rule::timevalue => {
            match eval_arg(&n.children, 0, r, f) {
                Err(e) => Err(e),
                Ok(a0) => match a0 {
                    Expr::String(s) => match time_of(&Expr::String(s), r) {
                        Err(e) => Err(e),
                        Ok(t) => Ok(Expr::Time(t)),
                    },
                    _ => Err(perr(r)),
                },
            }
        },
        Rule::hour | Rule::minute | Rule::second => {
            match eval_arg(&n.children, 0, r, f) {
                Err(e) => Err(e),
                Ok(a0) => match time_of(&a0, r) {
                    Err(e) => Err(e),
                    Ok(t) => {
                        let (h, mi, s) = t.hms();
                        let x: i64 = if matches!(r, Rule::hour) {
                            h as i64
                        } else if matches!(r, Rule::minute) {
                            mi as i64
                        } else {
                            s as i64
                        };
                        Ok(Expr::Number(Num::int_c(x)))
                    },
                },
            }
        },
        Rule::weekday => {
            match eval_arg(&n.children, 0, r, f) {
                Err(e) => Err(e),
                Ok(a0) => match date_of(&a0, r) {
                    Err(e) => Err(e),
                    Ok(dt) => {
                        let w = dt.weekday();
                        Ok(Expr::Number(Num::int_c(w as i64)))
                    },
                },
            }
        },
        Rule::isoweeknum => {
            match eval_arg(&n.children, 0, r, f) {
                Err(e) => Err(e),
                Ok(a0) => match date_of(&a0, r) {
                    Err(e) => Err(e),
                    Ok(dt) => {
                        let w = iso_week(&dt);
                        Ok(Expr::Number(Num::int_c(w)))
                    },
                },
            }
        },
        _ => {
            // year, month, day
            match eval_arg(&n.children, 0, r, f) {
                Err(e) => Err(e),
                Ok(a0) => match date_of(&a0, r) {
                    Err(e) => Err(e),
                    Ok(dt) => {
                        let (y, m, d) = dt.ymd();
                        let x: i64 = if matches!(r, Rule::year) {
                            y as i64
                        } else if matches!(r, Rule::month) {
                            m as i64
                        } else {
                            d as i64
                        };
                        Ok(Expr::Number(Num::int_c(x)))
                    },
                },
            }
        },
    }
}

} // verus!
