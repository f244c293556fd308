//! Library-wide laws, proved once and for all against the same spec
//! functions the public contracts use.

use crate::eval::eval_spec;
use crate::eval::is_det;
use crate::eval::rv;
use crate::expr::Expr;
use crate::expr::ExprV;
use crate::node::NodeV;
use crate::numfmt::lit_num_spec;
use crate::ops::arith2_spec;
use crate::parse::is_digit_char;
use crate::parse::leaf_v;
use crate::parse::parse_formula_spec;
use crate::parse::parse_num_spec;
use crate::parse::parse_root_spec;
use crate::parse::scan_digits_spec;
use crate::rules::is_unimplemented;
use crate::rules::rule_name_spec;
use crate::rules::Rule;
use crate::strings::is_ws_char;
use crate::strings::skip_ws_spec;
use crate::Error;
use crate::ErrV;
use crate::Formula;
use vstd::prelude::*;

verus! {

/// Re-evaluating the same formula text yields identical results: two
/// formulas parsed from one text, each evaluated as the evaluation
/// contract describes, agree exactly — provided the tree holds none
/// of the volatile leaves (`RAND`, `NOW`, `TODAY`, `WEBSERVICE`).
pub proof fn lemma_evaluation_repeatable(
    text: Seq<char>,
    f1: Formula,
    f2: Formula,
    r1: Result<Expr, Error>,
    r2: Result<Expr, Error>,
)
    requires
        parse_root_spec(text) == Some(f1.tree()),
        parse_root_spec(text) == Some(f2.tree()),
        is_det(f1.tree()),
        rv(r1) == eval_spec(f1.tree()),
        rv(r2) == eval_spec(f2.tree()),
    ensures
        rv(r1) == rv(r2),
{
}

/// A grammar-recognized but unimplemented function always evaluates
/// to `NotImplemented` carrying its own rule name — never to a
/// `Parser` error and never to a value.
pub proof fn lemma_unimplemented_is_not_implemented(n: NodeV)
    requires
        is_unimplemented(n.rule),
    ensures
        eval_spec(n) == Err::<ExprV, ErrV>(ErrV::NotImplemented(rule_name_spec(n.rule))),
{
    reveal(eval_spec);
}

/// A type-mismatched operand to a binary arithmetic operator is
/// always a `Parser` error, never a silent default.
pub proof fn lemma_arith_type_mismatch(r: Rule, a: ExprV, b: ExprV)
    requires
        r == Rule::add || r == Rule::sub || r == Rule::mul || r == Rule::div || r == Rule::pow
            || r == Rule::mod_ || r == Rule::power,
        !(a is Number && b is Number),
    ensures
        arith2_spec(r, a, b) == Err::<ExprV, ErrV>(ErrV::Parser(rule_name_spec(r))),
{
    reveal(arith2_spec);
}

/// Operands a comparison accepts: both of one scalar variant.
pub open spec fn comparable_pair(a: ExprV, b: ExprV) -> bool {
    (a is Number && b is Number) || (a is Str && b is Str) || (a is Time && b is Time) || (
    a is Datetime && b is Datetime) || (a is Date && b is Date) || (a is Bool && b is Bool)
}

/// A comparison across variants is always a `Parser` error, never a
/// coerced answer.
pub proof fn lemma_compare_type_mismatch(r: Rule, a: ExprV, b: ExprV)
    requires
        r == Rule::eq || r == Rule::ne || r == Rule::gt || r == Rule::lt || r == Rule::gte || r
            == Rule::lte,
        !comparable_pair(a, b),
    ensures
        crate::ops::cmp2_spec(r, a, b) == Err::<ExprV, ErrV>(ErrV::Parser(rule_name_spec(r))),
{
    reveal(crate::ops::cmp2_spec);
    reveal(crate::ops::eq2_spec);
    reveal(crate::ops::lt2_spec);
}

/// Booleans have no order: an ordering operator on a boolean operand
/// is a `Parser` error even when both operands are booleans.
pub proof fn lemma_bool_has_no_order(r: Rule, a: ExprV, b: ExprV)
    requires
        r == Rule::gt || r == Rule::lt || r == Rule::gte || r == Rule::lte,
        a is Bool || b is Bool,
    ensures
        crate::ops::cmp2_spec(r, a, b) == Err::<ExprV, ErrV>(ErrV::Parser(rule_name_spec(r))),
{
    reveal(crate::ops::cmp2_spec);
    reveal(crate::ops::lt2_spec);
}

/// `scan_digits_spec` is insensitive to a prefix shift.
proof fn lemma_scan_digits_shift(s: Seq<char>, off: int, lit: Seq<char>, i: int)
    requires
        0 <= off,
        0 <= i <= lit.len(),
        s.len() == off + lit.len(),
        forall|j: int| 0 <= j < lit.len() ==> s[off + j] == #[trigger] lit[j],
    ensures
        scan_digits_spec(s, off + i) == off + scan_digits_spec(lit, i),
    decreases lit.len() - i,
{
    if i < lit.len() && is_digit_char(lit[i]) {
        assert(s[off + i] == lit[i]);
        lemma_scan_digits_shift(s, off, lit, i + 1);
    } else {
        if i < lit.len() {
            assert(s[off + i] == lit[i]);
        }
    }
}

/// The shape of a well-formed numeric literal: its own parse covers
/// exactly the whole text.
pub open spec fn full_num_literal(lit: Seq<char>) -> bool {
    parse_num_spec(lit, 0) == Some((leaf_v(Rule::num, lit), lit.len() as int))
}

/// Round trip of numeric literals: for every well-formed numeric
/// literal whose value fits the numeric range, parsing `=` followed
/// by the literal succeeds with the literal's leaf, and evaluating
/// that leaf yields exactly the rational number the literal names.
pub proof fn lemma_numeric_literal_roundtrip(lit: Seq<char>)
    requires
        full_num_literal(lit),
        lit_num_spec(lit) is Some,
        lit.len() >= 1,
    ensures
        parse_root_spec(seq!['='] + lit) == Some(leaf_v(Rule::num, lit)),
        eval_spec(leaf_v(Rule::num, lit)) == Ok::<ExprV, ErrV>(
            ExprV::Number {
                n: lit_num_spec(lit)->Some_0.0,
                d: lit_num_spec(lit)->Some_0.1,
            },
        ),
{
    let s = seq!['='] + lit;
    assert(s.len() == 1 + lit.len());
    assert(s[0] == '=');
    assert(forall|j: int| 0 <= j < lit.len() ==> s[1 + j] == #[trigger] lit[j]);
    // the head character of the literal is a digit, minus or dot
    let jm0 = if 0 < lit.len() && lit[0] == '-' {
        1int
    } else {
        0int
    };
    let j1l = scan_digits_spec(lit, jm0);
    assert(is_digit_char(lit[0]) || lit[0] == '-' || lit[0] == '.') by {
        if lit[0] != '-' && lit[0] != '.' {
            if !is_digit_char(lit[0]) {
                assert(scan_digits_spec(lit, 0) == 0);
                let dot = 0 < lit.len() && lit[0] == '.';
                assert(!dot);
                assert(parse_num_spec(lit, 0) is None);
            }
        }
    }
    assert(!is_ws_char(s[0]));
    assert(!is_ws_char(s[1])) by {
        assert(s[1] == lit[0]);
    }
    assert(skip_ws_spec(s, 0) == 0);
    assert(skip_ws_spec(s, 1) == 1);
    // the numeric-literal parse shifts by one position
    lemma_scan_digits_shift(s, 1, lit, jm0);
    let jm_s = if 1 < s.len() && s[1] == '-' {
        2int
    } else {
        1int
    };
    assert(jm_s == 1 + jm0);
    let j1s = scan_digits_spec(s, jm_s);
    assert(j1s == 1 + j1l);
    let dot_l = 0 <= j1l < lit.len() && lit[j1l] == '.';
    let dot_s = 0 <= j1s < s.len() && s[j1s] == '.';
    assert(dot_s == dot_l) by {
        if 0 <= j1l < lit.len() {
            assert(s[1 + j1l] == lit[j1l]);
        }
    }
    if dot_l {
        lemma_scan_digits_shift(s, 1, lit, j1l + 1);
    }
    let j2l = if dot_l {
        scan_digits_spec(lit, j1l + 1)
    } else {
        j1l
    };
    let j2s = if dot_s {
        scan_digits_spec(s, j1s + 1)
    } else {
        j1s
    };
    assert(j2s == 1 + j2l);
    assert(j2l == lit.len());
    assert(s.subrange(1, j2s) =~= lit);
    assert(parse_num_spec(s, 1) == Some((leaf_v(Rule::num, lit), 1 + lit.len() as int)));
    assert(parse_formula_spec(s, 1) == Some((leaf_v(Rule::num, lit), 1 + lit.len() as int)));
    assert(skip_ws_spec(s, s.len() as int) == s.len());
    assert(parse_root_spec(s) == Some(leaf_v(Rule::num, lit)));
    // evaluation of the literal leaf
    reveal(eval_spec);
    reveal(crate::rules::is_unimplemented);
    assert(!is_unimplemented(Rule::num));
    assert(eval_spec(leaf_v(Rule::num, lit)) == Ok::<ExprV, ErrV>(
        ExprV::Number {
            n: lit_num_spec(lit)->Some_0.0,
            d: lit_num_spec(lit)->Some_0.1,
        },
    ));
}

} // verus!
