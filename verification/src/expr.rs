//! The value model.
//!
//! Every evaluation step produces or consumes an [`Expr`].  The ghost
//! twin [`ExprV`] is the shape every specification speaks about.

use crate::date::valid_ymd;
use crate::date::DateVal;
use crate::date::DatetimeVal;
use crate::date::TimeVal;
use crate::num::in_mag;
use crate::num::Num;
use vstd::prelude::*;

verus! {

/// The result of evaluating a formula.
///
/// Domain errors (division by zero, a square root of a negative
/// number, a result outside the numeric range) evaluate to `Null`
/// rather than an error.
#[derive(Debug, PartialEq)]
pub enum Expr {
    Date(DateVal),
    Datetime(DatetimeVal),
    Time(TimeVal),
    Number(Num),
    String(String),
    Bool(bool),
    Array(Vec<Expr>),
    Null,
}

/// The mathematical shape of an [`Expr`].
pub ghost enum ExprV {
    Date { y: int, m: int, d: int },
    Datetime { y: int, m: int, d: int, h: int, mi: int, s: int },
    Time { h: int, mi: int, s: int },
    Number { n: int, d: int },
    Str(Seq<char>),
    Bool(bool),
    Array(Seq<ExprV>),
    Null,
}

impl View for Expr {
    type V = ExprV;

    open spec fn view(&self) -> ExprV
        decreases self,
    {
        match self {
            Expr::Date(dt) => ExprV::Date { y: dt.yi(), m: dt.moni(), d: dt.dayi() },
            Expr::Datetime(dt) => ExprV::Datetime {
                y: dt.date.yi(),
                m: dt.date.moni(),
                d: dt.date.dayi(),
                h: dt.time.hi(),
                mi: dt.time.mini(),
                s: dt.time.seci(),
            },
            Expr::Time(t) => ExprV::Time { h: t.hi(), mi: t.mini(), s: t.seci() },
            Expr::Number(q) => ExprV::Number { n: q.ni(), d: q.di() },
            Expr::String(s) => ExprV::Str(s@),
            Expr::Bool(b) => ExprV::Bool(*b),
            Expr::Array(items) => ExprV::Array(exprs_view(items@)),
            Expr::Null => ExprV::Null,
        }
    }
}

/// Views of a list of values, in order.
pub open spec fn exprs_view(es: Seq<Expr>) -> Seq<ExprV>
    decreases es,
{
    if es.len() == 0 {
        Seq::empty()
    } else {
        seq![es[0]@] + exprs_view(es.drop_first())
    }
}

/// `exprs_view` is the element-wise view.
pub proof fn lemma_exprs_view(es: Seq<Expr>)
    ensures
        exprs_view(es).len() == es.len(),
        forall|i: int| 0 <= i < es.len() ==> exprs_view(es)[i] == #[trigger] es[i]@,
    decreases es.len(),
{
    if es.len() > 0 {
        lemma_exprs_view(es.drop_first());
        let rest = exprs_view(es.drop_first());
        assert(exprs_view(es) == seq![es[0]@] + rest);
        assert(exprs_view(es).len() == 1 + rest.len());
        assert forall|i: int| 0 <= i < es.len() implies exprs_view(es)[i] == #[trigger] es[i]@ by {
            if i == 0 {
                assert(exprs_view(es)[0] == es[0]@);
            } else {
                assert(es.drop_first()[i - 1] == es[i]);
                assert(exprs_view(es)[i] == rest[i - 1]);
            }
        }
    }
}

/// Appending one value appends one view.
pub proof fn lemma_exprs_view_push(es: Seq<Expr>, e: Expr)
    ensures
        exprs_view(es.push(e)) =~= exprs_view(es).push(e@),
{
    lemma_exprs_view(es);
    lemma_exprs_view(es.push(e));
    assert forall|i: int| 0 <= i < es.len() + 1 implies exprs_view(es.push(e))[i] == exprs_view(
        es,
    ).push(e@)[i] by {
        assert(exprs_view(es.push(e))[i] == es.push(e)[i]@);
        if i < es.len() {
            assert(es.push(e)[i] == es[i]);
            assert(exprs_view(es)[i] == es[i]@);
        } else {
            assert(es.push(e)[i] == e);
        }
    }
}

/// `exprs_view` of a list with `e` put in front.
pub proof fn lemma_exprs_view_cons(e: Expr, s: Seq<Expr>)
    ensures
        exprs_view(seq![e] + s) == seq![e@] + exprs_view(s),
        exprs_view(s.insert(0, e)) == seq![e@] + exprs_view(s),
{
    let cs = seq![e] + s;
    assert(cs.len() > 0);
    assert(cs[0] == e);
    assert(cs.drop_first() =~= s);
    assert(exprs_view(cs) == seq![cs[0]@] + exprs_view(cs.drop_first()));
    assert(s.insert(0, e) =~= cs);
}

/// Well-formedness of a value: numbers are reduced-range rationals,
/// dates are calendar days, times are clock times.
pub open spec fn wf_exprv(e: ExprV) -> bool
    decreases e,
{
    match e {
        ExprV::Date { y, m, d } => valid_ymd(y, m, d),
        ExprV::Datetime { y, m, d, h, mi, s } => valid_ymd(y, m, d) && 0 <= h < 24 && 0 <= mi < 60
            && 0 <= s < 60,
        ExprV::Time { h, mi, s } => 0 <= h < 24 && 0 <= mi < 60 && 0 <= s < 60,
        ExprV::Number { n, d } => in_mag(n) && 1 <= d <= 0x7fff_ffff_ffff_ffff,
        ExprV::Str(_) => true,
        ExprV::Bool(_) => true,
        ExprV::Array(items) => forall|i: int| 0 <= i < items.len() ==> wf_exprv(#[trigger] items[i]),
        ExprV::Null => true,
    }
}

} // verus!
