//! Rendering a value for a foreign boundary: arrays as bracketed
//! comma lists, strings and the date-time values as quoted strings,
//! numbers and booleans as literals, `Null` as a null literal.

use crate::date::DateVal;
use crate::expr::exprs_view;
use crate::expr::lemma_exprs_view;
use crate::expr::wf_exprv;
use crate::expr::Expr;
use crate::expr::ExprV;
use crate::fn_text::extend_chars;
use crate::num::Num;
use crate::numfmt::digit_chars_spec;
use crate::numfmt::fixed_str;
use crate::numfmt::fixed_str_spec;
use crate::numfmt::int_digits_spec;
use crate::numfmt::lemma_int_digits_small;
use crate::numfmt::int_digits;
use crate::numfmt::pad_front;
use crate::numfmt::pad_front_spec;
use crate::numfmt::pow10;
use crate::numfmt::pow10_spec;
use crate::strings::chars_to_string;
use crate::strings::string_to_chars;
use vstd::prelude::*;

verus! {

broadcast use vstd::std_specs::vec::axiom_vec_decreases_to_view;

/// A number zero-padded to at least `w` digits.
pub open spec fn padded_spec(x: int, w: int) -> Seq<char> {
    digit_chars_spec(pad_front_spec(int_digits_spec(x), w))
}

fn padded(x: u64, w: usize) -> (r: Vec<char>)
    requires
        w <= 8,
    ensures
        r@ == padded_spec(x as int, w as int),
{
    proof {
        lemma_int_digits_small(x as int);
    }
    let ds = pad_front(int_digits(x as u128), w);
    crate::numfmt::digit_chars(&ds)
}

/// The `YYYY-MM-DD` form of a date, the year sign leading.
pub open spec fn date_str_spec(y: int, m: int, d: int) -> Seq<char> {
    let sign: Seq<char> = if y < 0 {
        seq!['-']
    } else {
        Seq::empty()
    };
    let ya = if y < 0 {
        -y
    } else {
        y
    };
    sign + padded_spec(ya, 4) + seq!['-'] + padded_spec(m, 2) + seq!['-'] + padded_spec(d, 2)
}

fn date_str(dt: &DateVal) -> (r: Vec<char>)
    requires
        dt.wf(),
    ensures
        r@ == date_str_spec(dt.yi(), dt.moni(), dt.dayi()),
{
    let (y, m, d) = dt.ymd();
    let mut out: Vec<char> = Vec::new();
    if y < 0 {
        out.push('-');
    }
    let ya: u64 = if y < 0 {
        (-(y as i64)) as u64
    } else {
        y as u64
    };
    let yc = padded(ya, 4);
    extend_chars(&mut out, &yc);
    out.push('-');
    let mc = padded(m as u64, 2);
    extend_chars(&mut out, &mc);
    out.push('-');
    let dc = padded(d as u64, 2);
    extend_chars(&mut out, &dc);
    proof {
        assert(out@ =~= date_str_spec(dt.yi(), dt.moni(), dt.dayi()));
    }
    out
}

/// The `HH:MM:SS` form of a clock time.
pub open spec fn time_str_spec(h: int, mi: int, s: int) -> Seq<char> {
    padded_spec(h, 2) + seq![':'] + padded_spec(mi, 2) + seq![':'] + padded_spec(s, 2)
}

fn time_str(t: &crate::date::TimeVal) -> (r: Vec<char>)
    requires
        t.wf(),
    ensures
        r@ == time_str_spec(t.hi(), t.mini(), t.seci()),
{
    let (h, mi, s) = t.hms();
    let mut out: Vec<char> = Vec::new();
    let hc = padded(h as u64, 2);
    extend_chars(&mut out, &hc);
    out.push(':');
    let mc = padded(mi as u64, 2);
    extend_chars(&mut out, &mc);
    out.push(':');
    let sc = padded(s as u64, 2);
    extend_chars(&mut out, &sc);
    proof {
        assert(out@ =~= time_str_spec(t.hi(), t.mini(), t.seci()));
    }
    out
}

/// The fewest decimal places that write the rational exactly, when
/// eighteen or fewer suffice.
pub open spec fn dec_places_spec(n: int, d: int, k: int) -> Option<int>
    decreases 19 - k,
{
    if !(0 <= k <= 18) {
        None
    } else if (n * pow10_spec(k as nat)) % d == 0 {
        Some(k)
    } else {
        dec_places_spec(n, d, k + 1)
    }
}

fn dec_places(q: &Num, k: usize) -> (r: Option<usize>)
    requires
        q.wf(),
        k <= 18,
    ensures
        match r {
            Some(w) => dec_places_spec(q.ni(), q.di(), k as int) == Some(w as int) && w <= 18,
            None => dec_places_spec(q.ni(), q.di(), k as int) is None,
        },
    decreases 19 - k,
{
    let (n, d) = q.parts();
    let p = pow10(k);
    proof {
        crate::num::lemma_mag_prod(q.ni(), p as int);
    }
    let na: u128 = if n < 0 {
        (-(n as i128)) as u128
    } else {
        n as u128
    };
    proof {
        assert(na as int * (p as int) <= 0x7fff_ffff_ffff_ffff * 0xde0b6b3a7640000int)
            by (nonlinear_arith)
            requires
                0 <= na <= 0x7fff_ffff_ffff_ffff,
                1 <= p <= 0xde0b6b3a7640000,
        ;
    }
    let scaled: u128 = na * (p as u128);
    let rem_zero = scaled % (d as u128) == 0;
    proof {
        assert(scaled as int == (if q.ni() * (p as int) < 0 {
            -(q.ni() * (p as int))
        } else {
            q.ni() * (p as int)
        })) by (nonlinear_arith)
            requires
                scaled as int == na as int * (p as int),
                na as int == (if q.ni() < 0 {
                    -q.ni()
                } else {
                    q.ni()
                }),
                1 <= p,
        ;
        lemma_neg_mod(q.ni() * (p as int), d as int);
    }
    if rem_zero {
        Some(k)
    } else if k == 18 {
        None
    } else {
        dec_places(q, k + 1)
    }
}

/// Divisibility is insensitive to the dividend's sign.
proof fn lemma_neg_mod(x: int, d: int)
    requires
        1 <= d,
    ensures
        (x % d == 0) <==> ((if x < 0 {
            -x
        } else {
            x
        }) % d == 0),
{
    if x < 0 {
        if x % d == 0 {
            vstd::arithmetic::div_mod::lemma_fundamental_div_mod(x, d);
            assert(-x == (-(x / d)) * d) by (nonlinear_arith)
                requires
                    x == d * (x / d) + 0,
            ;
            vstd::arithmetic::div_mod::lemma_mod_multiples_basic(-(x / d), d);
        }
        if (-x) % d == 0 {
            vstd::arithmetic::div_mod::lemma_fundamental_div_mod(-x, d);
            assert(x == (-((-x) / d)) * d) by (nonlinear_arith)
                requires
                    -x == d * ((-x) / d) + 0,
            ;
            vstd::arithmetic::div_mod::lemma_mod_multiples_basic(-((-x) / d), d);
        }
    }
}

/// A rational as decimal text: exact with the fewest places when
/// eighteen suffice, else rounded at seventeen places.
pub open spec fn num_str_spec(n: int, d: int) -> Seq<char> {
    match dec_places_spec(n, d, 0) {
        Some(k) => fixed_str_spec(n, d, k, true),
        None => fixed_str_spec(n, d, 17, true),
    }
}

fn num_str(q: &Num) -> (r: Vec<char>)
    requires
        q.wf(),
    ensures
        r@ == num_str_spec(q.ni(), q.di()),
{
    match dec_places(q, 0) {
        Some(k) => fixed_str(q, k, true),
        None => fixed_str(q, 17, true),
    }
}

/// The UTC-instant text: date, a space, time, a space and `UTC`.
pub open spec fn datetime_str_spec(y: int, m: int, d: int, h: int, mi: int, s: int) -> Seq<char> {
    date_str_spec(y, m, d) + seq![' '] + time_str_spec(h, mi, s) + seq![' ', 'U', 'T', 'C']
}

/// The boundary rendering of a value.
pub open spec fn json_spec(v: ExprV) -> Seq<char>
    decreases v, 0int,
{
    match v {
        ExprV::Str(s) => seq!['"'] + s + seq!['"'],
        ExprV::Date { y, m, d } => seq!['"'] + date_str_spec(y, m, d) + seq!['"'],
        ExprV::Datetime { y, m, d, h, mi, s } => seq!['"'] + datetime_str_spec(y, m, d, h, mi, s)
            + seq!['"'],
        ExprV::Time { h, mi, s } => seq!['"'] + time_str_spec(h, mi, s) + seq!['"'],
        ExprV::Number { n, d } => num_str_spec(n, d),
        ExprV::Bool(b) => if b {
            "true"@
        } else {
            "false"@
        },
        ExprV::Array(items) => seq!['['] + json_items_spec(items, 0) + seq![']'],
        ExprV::Null => "null"@,
    }
}

/// Array items joined with commas.
pub open spec fn json_items_spec(items: Seq<ExprV>, k: int) -> Seq<char>
    decreases items, 1int, items.len() - k,
{
    if !(0 <= k < items.len()) {
        Seq::empty()
    } else {
        let head = json_spec(items[k]);
        if k + 1 < items.len() {
            head + seq![','] + json_items_spec(items, k + 1)
        } else {
            head
        }
    }
}

fn json_chars(e: &Expr) -> (r: Vec<char>)
    requires
        wf_exprv(e@),
    ensures
        r@ == json_spec(e@),
    decreases e, 0int, 0int,
{
    match e {
        Expr::String(s) => {
            let mut out: Vec<char> = Vec::new();
            out.push('"');
            let sv = string_to_chars(s.as_str());
            extend_chars(&mut out, &sv);
            out.push('"');
            proof {
                assert(out@ =~= json_spec(e@));
            }
            out
        },
        Expr::Date(dt) => {
            let mut out: Vec<char> = Vec::new();
            out.push('"');
            let dv = date_str(dt);
            extend_chars(&mut out, &dv);
            out.push('"');
            proof {
                assert(out@ =~= json_spec(e@));
            }
            out
        },
        Expr::Datetime(dt) => {
            let mut out: Vec<char> = Vec::new();
            out.push('"');
            let dv = date_str(&dt.date);
            extend_chars(&mut out, &dv);
            out.push(' ');
            let tv = time_str(&dt.time);
            extend_chars(&mut out, &tv);
            out.push(' ');
            out.push('U');
            out.push('T');
            out.push('C');
            out.push('"');
            proof {
                assert(out@ =~= json_spec(e@));
            }
            out
        },
        Expr::Time(t) => {
            let mut out: Vec<char> = Vec::new();
            out.push('"');
            let tv = time_str(t);
            extend_chars(&mut out, &tv);
            out.push('"');
            proof {
                assert(out@ =~= json_spec(e@));
            }
            out
        },
        Expr::Number(q) => {
            let out = num_str(q);
            out
        },
        Expr::Bool(b) => {
            let out = if *b {
                string_to_chars("true")
            } else {
                string_to_chars("false")
            };
            out
        },
        Expr::Array(items) => {
            let mut out: Vec<char> = Vec::new();
            out.push('[');
            proof {
                lemma_exprs_view(items@);
                assert(wf_exprv(ExprV::Array(exprs_view(items@))));
            }
            let inner = json_items(items, 0);
            extend_chars(&mut out, &inner);
            out.push(']');
            proof {
                assert(out@ =~= json_spec(e@));
            }
            out
        },
        Expr::Null => {
            let out = string_to_chars("null");
            out
        },
    }
}

fn json_items(items: &Vec<Expr>, k: usize) -> (r: Vec<char>)
    requires
        forall|i: int| 0 <= i < items@.len() ==> wf_exprv(#[trigger] exprs_view(items@)[i]),
    ensures
        r@ == json_items_spec(exprs_view(items@), k as int),
    decreases items, 1int, items@.len() - k,
{
    proof {
        lemma_exprs_view(items@);
    }
    if k >= items.len() {
        Vec::new()
    } else {
        proof {
            assert(exprs_view(items@)[k as int] == items@[k as int]@);
        }
        let mut out = json_chars(&items[k]);
        if k + 1 < items.len() {
            out.push(',');
            let rest = json_items(items, k + 1);
            extend_chars(&mut out, &rest);
        }
        out
    }
}

impl Expr {
    /// The boundary text of this value, per `json_spec` of its view.
    pub fn to_boundary_string(&self) -> (r: String)
        requires
            wf_exprv(self@),
        ensures
            r@ == json_spec(self@),
    {
        let cs = json_chars(self);
        chars_to_string(&cs)
    }
}

impl DateVal {
    /// The `YYYY-MM-DD` text of this date.
    pub fn text(&self) -> (r: String)
        requires
            self.wf(),
        ensures
            r@ == date_str_spec(self.yi(), self.moni(), self.dayi()),
    {
        let cs = date_str(self);
        chars_to_string(&cs)
    }
}

impl crate::date::TimeVal {
    /// The `HH:MM:SS` text of this time.
    pub fn text(&self) -> (r: String)
        requires
            self.wf(),
        ensures
            r@ == time_str_spec(self.hi(), self.mini(), self.seci()),
    {
        let cs = time_str(self);
        chars_to_string(&cs)
    }
}

impl crate::date::DatetimeVal {
    /// The instant's text: date, time and the `UTC` marker.
    pub fn text(&self) -> (r: String)
        requires
            self.wf(),
        ensures
            r@ == datetime_str_spec(
                self.date.yi(),
                self.date.moni(),
                self.date.dayi(),
                self.time.hi(),
                self.time.mini(),
                self.time.seci(),
            ),
    {
        let mut out = date_str(&self.date);
        out.push(' ');
        let tv = time_str(&self.time);
        extend_chars(&mut out, &tv);
        out.push(' ');
        out.push('U');
        out.push('T');
        out.push('C');
        proof {
            assert(out@ =~= datetime_str_spec(
                self.date.yi(),
                self.date.moni(),
                self.date.dayi(),
                self.time.hi(),
                self.time.mini(),
                self.time.seci(),
            ));
        }
        chars_to_string(&out)
    }
}

} // verus!
