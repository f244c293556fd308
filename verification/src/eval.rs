//! The dispatch evaluator: one recursive walk over the parse tree,
//! keyed by each node's rule tag.
//!
//! Arguments are themselves formulas, evaluated depth-first and left
//! to right before the enclosing function computes.  Every step is
//! mirrored by a spec twin, so on trees free of the four
//! non-deterministic leaves (`rand`, `now`, `today`, `webservice`)
//! evaluation is a mathematical function of the tree.

use crate::date::DateVal;
use crate::expr::exprs_view;
use crate::expr::lemma_exprs_view;
use crate::expr::lemma_exprs_view_push;
use crate::expr::wf_exprv;
use crate::expr::Expr;
use crate::expr::ExprV;
use crate::fn_date::eval_date;
use crate::fn_date::eval_date_spec;
use crate::fn_date::is_date_rule;
use crate::fn_math::eval_math;
use crate::fn_math::eval_math_spec;
use crate::fn_math::is_math_rule;
use crate::fn_text::eval_text;
use crate::fn_text::eval_text_spec;
use crate::fn_text::is_text_rule;
use crate::node::children_view;
use crate::node::lemma_children_view;
use crate::node::wf_node;
use crate::node::Node;
use crate::node::NodeV;
use crate::num::Num;
use crate::numfmt::lit_num;
use crate::numfmt::lit_num_spec;
use crate::ops::eval_op;
use crate::ops::eval_op_spec;
use crate::ops::is_op_rule;
use crate::rules::is_separator;
use crate::rules::is_unimplemented;
use crate::rules::rule_name;
use crate::rules::rule_name_spec;
use crate::rules::Rule;
use crate::strings::string_to_chars;
use crate::Error;
use crate::ErrV;
use vstd::prelude::*;

verus! {

broadcast use vstd::std_specs::vec::axiom_vec_decreases_to_view;

/// The pluggable transport behind `WEBSERVICE`: the evaluator itself
/// never talks to a network.
pub trait Fetcher {
    fn fetch(&mut self, url: &str) -> Result<String, Error>;
}

/// The built-in fetcher, which performs no I/O and answers every
/// request with a fixed greeting.
pub struct StubFetcher;

impl Fetcher for StubFetcher {
    fn fetch(&mut self, url: &str) -> Result<String, Error> {
        Ok("hello".to_owned())
    }
}

/// Views of an evaluation outcome.
pub open spec fn rv(r: Result<Expr, Error>) -> Result<ExprV, ErrV> {
    match r {
        Ok(e) => Ok(e@),
        Err(x) => Err(x@),
    }
}

pub open spec fn ok_wf(r: Result<Expr, Error>) -> bool {
    match r {
        Ok(e) => wf_exprv(e@),
        Err(_) => true,
    }
}

/// A tree with none of the four non-deterministic leaves.
pub open spec fn is_det(n: NodeV) -> bool
    decreases n,
{
    n.rule != Rule::rand && n.rule != Rule::now && n.rule != Rule::today && n.rule
        != Rule::webservice && forall|i: int|
        0 <= i < n.children.len() ==> is_det(#[trigger] n.children[i])
}

pub open spec fn all_det(cs: Seq<NodeV>) -> bool {
    forall|i: int| 0 <= i < cs.len() ==> is_det(#[trigger] cs[i])
}

pub open spec fn all_wf(cs: Seq<NodeV>) -> bool {
    forall|i: int| 0 <= i < cs.len() ==> wf_node(#[trigger] cs[i])
}

/// Well-formedness carried by every exec node list we walk: each
/// child is either an array separator or a well-formed tree.
pub open spec fn wf_kids(cs: Seq<NodeV>) -> bool {
    forall|i: int|
        0 <= i < cs.len() ==> is_separator(#[trigger] cs[i].rule) || wf_node(cs[i])
}

pub open spec fn perr_v(r: Rule) -> ErrV {
    ErrV::Parser(rule_name_spec(r))
}

/// A number drawn from the unit interval: `0 <= n/d < 1`.
pub open spec fn unit_number_res(r: Result<ExprV, ErrV>) -> bool {
    r matches Ok(e) && (e matches ExprV::Number { n, d } && 0 <= n < d)
}

/// What holds of a `WEBSERVICE` node whatever the transport answered,
/// given its argument children are free of volatile leaves: the
/// argument's own error propagates; a non-string operand is this
/// rule's `Parser` error; a string operand yields either the fetched
/// text as a string or, on transport failure, this rule's `Parser`
/// error — with no retry, since exactly one fetch is made.
pub open spec fn webservice_post(n: NodeV, r: Result<ExprV, ErrV>) -> bool {
    match arg_spec(n.children, 0, Rule::webservice) {
        Err(e) => r == Err::<ExprV, ErrV>(e),
        Ok(v) => match v {
            ExprV::Str(_) => (r matches Ok(e) && e is Str) || r == Err::<ExprV, ErrV>(
                perr_v(Rule::webservice),
            ),
            _ => r == Err::<ExprV, ErrV>(perr_v(Rule::webservice)),
        },
    }
}

/// The children of a well-formed non-array node are all well-formed,
/// and a deterministic node has deterministic children.
pub proof fn lemma_node_kids(n: NodeV)
    ensures
        wf_node(n) ==> wf_kids(n.children),
        wf_node(n) && n.rule != Rule::array ==> all_wf(n.children),
        is_det(n) ==> all_det(n.children),
{
    if wf_node(n) {
        assert forall|i: int|
            0 <= i < n.children.len() implies is_separator(#[trigger] n.children[i].rule)
            || wf_node(n.children[i]) by {}
        if n.rule != Rule::array {
            assert forall|i: int| 0 <= i < n.children.len() implies wf_node(
                #[trigger] n.children[i],
            ) by {
                assert(!is_separator(n.children[i].rule) || n.rule == Rule::array);
            }
        }
    }
}

/// A `Parser` error naming the rule under evaluation.
pub fn perr(r: Rule) -> (e: Error)
    ensures
        e@ == perr_v(r),
{
    Error::Parser(rule_name(r))
}

pub open spec fn num_or_null_v(o: Option<(int, int)>) -> ExprV {
    match o {
        Some(p) => ExprV::Number { n: p.0, d: p.1 },
        None => ExprV::Null,
    }
}

/// A finished arithmetic step: a number when it fits, `Null` when the
/// operation had no representable result.
pub fn num_or_null(o: Option<Num>) -> (e: Expr)
    requires
        o matches Some(q) ==> q.wf(),
    ensures
        e@ == num_or_null_v(match o {
            Some(q) => Some((q.ni(), q.di())),
            None => None,
        }),
        wf_exprv(e@),
{
    match o {
        Some(q) => Expr::Number(q),
        None => Expr::Null,
    }
}

/// The `k`-th argument: evaluated, or a `Parser` error when missing.
pub open spec fn arg_spec(cs: Seq<NodeV>, k: int, r: Rule) -> Result<ExprV, ErrV>
    decreases cs, 1int, 0int,
{
    if 0 <= k < cs.len() {
        eval_spec(cs[k])
    } else {
        Err(perr_v(r))
    }
}

/// The `k`-th argument, or a default value when missing.
pub open spec fn argd_spec(cs: Seq<NodeV>, k: int, d: ExprV) -> Result<ExprV, ErrV>
    decreases cs, 1int, 0int,
{
    if 0 <= k < cs.len() {
        eval_spec(cs[k])
    } else {
        Ok(d)
    }
}

/// All arguments from `k` on, evaluated left to right.
pub open spec fn rest_spec(cs: Seq<NodeV>, k: int) -> Result<Seq<ExprV>, ErrV>
    decreases cs, 1int, cs.len() - k,
{
    if !(0 <= k < cs.len()) {
        Ok(Seq::empty())
    } else {
        match eval_spec(cs[k]) {
            Err(e) => Err(e),
            Ok(v) => match rest_spec(cs, k + 1) {
                Err(e) => Err(e),
                Ok(vs) => Ok(seq![v] + vs),
            },
        }
    }
}

/// Array-literal assembly: children accumulate into the current row;
/// a row separator flushes the row into the table.
pub open spec fn array_spec(
    cs: Seq<NodeV>,
    k: int,
    row: Seq<ExprV>,
    table: Seq<ExprV>,
    saw: bool,
) -> Result<ExprV, ErrV>
    decreases cs, 1int, cs.len() - k,
{
    if !(0 <= k < cs.len()) {
        if !saw {
            Ok(ExprV::Array(row))
        } else {
            Ok(ExprV::Array(table.push(ExprV::Array(row))))
        }
    } else if cs[k].rule == Rule::array_col_sep {
        array_spec(cs, k + 1, row, table, saw)
    } else if cs[k].rule == Rule::array_row_sep {
        array_spec(cs, k + 1, Seq::empty(), table.push(ExprV::Array(row)), true)
    } else {
        match eval_spec(cs[k]) {
            Err(e) => Err(e),
            Ok(v) => array_spec(cs, k + 1, row.push(v), table, saw),
        }
    }
}

/// What a whole tree evaluates to, on deterministic trees.
#[verifier::opaque]
pub open spec fn eval_spec(n: NodeV) -> Result<ExprV, ErrV>
    decreases n, 2int, 0int,
{
    if is_unimplemented(n.rule) {
        Err(ErrV::NotImplemented(rule_name_spec(n.rule)))
    } else if is_op_rule(n.rule) {
        eval_op_spec(n)
    } else if is_math_rule(n.rule) {
        eval_math_spec(n)
    } else if is_text_rule(n.rule) {
        eval_text_spec(n)
    } else if is_date_rule(n.rule) {
        eval_date_spec(n)
    } else {
        match n.rule {
            Rule::num => match lit_num_spec(n.text) {
                Some(p) => Ok(ExprV::Number { n: p.0, d: p.1 }),
                // a well-formed literal whose value leaves the numeric
                // range is the Null domain value, not an error
                None => if crate::numfmt::lit_shape(n.text) {
                    Ok(ExprV::Null)
                } else {
                    Err(perr_v(Rule::num))
                },
            },
            Rule::string => Ok(ExprV::Str(n.text)),
            Rule::bool_true => Ok(ExprV::Bool(true)),
            Rule::bool_false => Ok(ExprV::Bool(false)),
            Rule::array => array_spec(n.children, 0, Seq::empty(), Seq::empty(), false),
            Rule::and => eval_logic_fold(n, Rule::and),
            Rule::or => eval_logic_fold(n, Rule::or),
            Rule::xor => eval_logic_fold(n, Rule::xor),
            Rule::not => match arg_spec(n.children, 0, Rule::not) {
                Err(e) => Err(e),
                Ok(v) => match v {
                    ExprV::Bool(b) => Ok(ExprV::Bool(!b)),
                    _ => Err(perr_v(Rule::not)),
                },
            },
            Rule::if_ => eval_if_spec(n),
            Rule::ifna => eval_ifna_spec(n),
            Rule::iferror => eval_iferror_spec(n),
            Rule::encodeurl => eval_encodeurl_spec(n),
            // the non-deterministic web leaf; its spec value is unused
            Rule::webservice => Ok(ExprV::Null),
            _ => Err(perr_v(n.rule)),
        }
    }
}

/// `AND`, `OR` and `XOR`: one required and many optional booleans,
/// folded left to right.
pub open spec fn eval_logic_fold(n: NodeV, r: Rule) -> Result<ExprV, ErrV>
    decreases n, 1int, 0int,
{
    match arg_spec(n.children, 0, r) {
        Err(e) => Err(e),
        Ok(first) => match rest_spec(n.children, 1) {
            Err(e) => Err(e),
            Ok(vs) => match first {
                ExprV::Bool(b0) => fold_bools(vs, 0, b0, r),
                _ => Err(perr_v(r)),
            },
        },
    }
}

pub open spec fn fold_bools(vs: Seq<ExprV>, k: int, acc: bool, r: Rule) -> Result<ExprV, ErrV>
    decreases vs.len() - k,
{
    if !(0 <= k < vs.len()) {
        Ok(ExprV::Bool(acc))
    } else {
        match vs[k] {
            ExprV::Bool(b) => fold_bools(
                vs,
                k + 1,
                if r == Rule::and {
                    acc && b
                } else if r == Rule::or {
                    acc || b
                } else {
                    acc != b
                },
                r,
            ),
            _ => Err(perr_v(r)),
        }
    }
}

/// `IF`: an eagerly evaluated condition and two branches, each
/// defaulting to zero.
pub open spec fn eval_if_spec(n: NodeV) -> Result<ExprV, ErrV>
    decreases n, 1int, 0int,
{
    match arg_spec(n.children, 0, Rule::if_) {
        Err(e) => Err(e),
        Ok(c) => match argd_spec(n.children, 1, ExprV::Number { n: 0, d: 1 }) {
            Err(e) => Err(e),
            Ok(tv) => match argd_spec(n.children, 2, ExprV::Number { n: 0, d: 1 }) {
                Err(e) => Err(e),
                Ok(fv) => match c {
                    ExprV::Bool(b) => if b {
                        Ok(tv)
                    } else {
                        Ok(fv)
                    },
                    _ => Err(perr_v(Rule::if_)),
                },
            },
        },
    }
}

/// `IFNA`: substitute the fallback only for `Null`.
pub open spec fn eval_ifna_spec(n: NodeV) -> Result<ExprV, ErrV>
    decreases n, 1int, 0int,
{
    match arg_spec(n.children, 0, Rule::ifna) {
        Err(e) => Err(e),
        Ok(v) => match arg_spec(n.children, 1, Rule::ifna) {
            Err(e) => Err(e),
            Ok(na) => match v {
                ExprV::Null => Ok(na),
                _ => Ok(v),
            },
        },
    }
}

/// `IFERROR`: the one place an evaluation error is caught; a failed
/// first argument falls back on the second, and any error that still
/// escapes is reported as this rule's own.
pub open spec fn eval_iferror_spec(n: NodeV) -> Result<ExprV, ErrV>
    decreases n, 1int, 0int,
{
    if n.children.len() < 2 {
        Err(perr_v(Rule::iferror))
    } else {
        match eval_spec(n.children[0]) {
            Ok(v) => Ok(v),
            Err(_) => match eval_spec(n.children[1]) {
                Ok(w) => Ok(w),
                Err(_) => Err(perr_v(Rule::iferror)),
            },
        }
    }
}

/// `ENCODEURL`: percent-encode a string.
pub open spec fn eval_encodeurl_spec(n: NodeV) -> Result<ExprV, ErrV>
    decreases n, 1int, 0int,
{
    match arg_spec(n.children, 0, Rule::encodeurl) {
        Err(e) => Err(e),
        Ok(v) => match v {
            ExprV::Str(s) => Ok(
                ExprV::Str(crate::web::url_enc_spec(vstd::utf8::encode_utf8(s))),
            ),
            _ => Err(perr_v(Rule::encodeurl)),
        },
    }
}

/// Evaluate the `k`-th child; a missing required argument is a
/// `Parser` error naming the enclosing rule.
#[verifier::rlimit(100)]
pub fn eval_arg<F: Fetcher>(cs: &Vec<Node>, k: usize, r: Rule, f: &mut F) -> (res: Result<
    Expr,
    Error,
>)
    requires
        all_wf(children_view(cs@)),
    ensures
        all_det(children_view(cs@)) ==> rv(res) == arg_spec(children_view(cs@), k as int, r),
        ok_wf(res),
    decreases cs, 1int, 0int,
{
    proof {
        lemma_children_view(cs@);
    }
    if k < cs.len() {
        proof {
            assert(children_view(cs@)[k as int] == cs@[k as int]@);
            if all_det(children_view(cs@)) {
                assert(is_det(children_view(cs@)[k as int]));
                assert(is_det(cs@[k as int]@));
            }
        }
        let res0 = eval(&cs[k], f);
        proof {
            reveal(eval_spec);
            if all_det(children_view(cs@)) {
                assert(rv(res0) == eval_spec(cs@[k as int]@));
                assert(arg_spec(children_view(cs@), k as int, r) == eval_spec(cs@[k as int]@));
            }
        }
        res0
    } else {
        proof {
            reveal(eval_spec);
        }
        Err(perr(r))
    }
}

/// Evaluate the `k`-th child, or hand back the default.
#[verifier::rlimit(100)]
pub fn eval_argd<F: Fetcher>(cs: &Vec<Node>, k: usize, d: Expr, f: &mut F) -> (res: Result<
    Expr,
    Error,
>)
    requires
        all_wf(children_view(cs@)),
        wf_exprv(d@),
    ensures
        all_det(children_view(cs@)) ==> rv(res) == argd_spec(children_view(cs@), k as int, d@),
        ok_wf(res),
    decreases cs, 1int, 0int,
{
    proof {
        lemma_children_view(cs@);
    }
    if k < cs.len() {
        proof {
            reveal(eval_spec);
            assert(children_view(cs@)[k as int] == cs@[k as int]@);
            if all_det(children_view(cs@)) {
                assert(is_det(children_view(cs@)[k as int]));
                assert(is_det(cs@[k as int]@));
            }
        }
        eval(&cs[k], f)
    } else {
        proof {
            reveal(eval_spec);
        }
        Ok(d)
    }
}

/// Evaluate the children from `k` on, left to right.
#[verifier::rlimit(100)]
pub fn eval_rest<F: Fetcher>(cs: &Vec<Node>, k: usize, f: &mut F) -> (res: Result<
    Vec<Expr>,
    Error,
>)
    requires
        all_wf(children_view(cs@)),
    ensures
        all_det(children_view(cs@)) ==> (match res {
            Ok(vs) => rest_spec(children_view(cs@), k as int) == Ok::<Seq<ExprV>, ErrV>(exprs_view(vs@)),
            Err(e) => rest_spec(children_view(cs@), k as int) == Err::<Seq<ExprV>, ErrV>(e@),
        }),
        (res matches Ok(vs) ==> forall|i: int|
            0 <= i < vs@.len() ==> wf_exprv(#[trigger] exprs_view(vs@)[i])),
    decreases cs, 1int, cs@.len() - k,
{
    proof {
        lemma_children_view(cs@);
    }
    if k >= cs.len() {
        let out: Vec<Expr> = Vec::new();
        proof {
            reveal(eval_spec);
            lemma_exprs_view(out@);
            assert(exprs_view(out@) =~= Seq::<ExprV>::empty());
        }
        Ok(out)
    } else {
        proof {
            reveal(eval_spec);
            assert(children_view(cs@)[k as int] == cs@[k as int]@);
            if all_det(children_view(cs@)) {
                assert(is_det(children_view(cs@)[k as int]));
                assert(is_det(cs@[k as int]@));
            }
        }
        match eval(&cs[k], f) {
            Err(e) => Err(e),
            Ok(v) => match eval_rest(cs, k + 1, f) {
                Err(e) => Err(e),
                Ok(mut vs) => {
                    let ghost oldvs = vs@;
                    let ghost vg = v;
                    vs.insert(0, v);
                    proof {
                        assert(vs@ == oldvs.insert(0, vg));
                        crate::expr::lemma_exprs_view_cons(vg, oldvs);
                        lemma_exprs_view(oldvs);
                        lemma_exprs_view(vs@);
                    }
                    Ok(vs)
                },
            },
        }
    }
}

/// Walk an array literal's children, flushing rows at separators.
#[verifier::rlimit(100)]
fn eval_array<F: Fetcher>(
    cs: &Vec<Node>,
    k: usize,
    row: Vec<Expr>,
    table: Vec<Expr>,
    saw: bool,
    f: &mut F,
) -> (res: Result<Expr, Error>)
    requires
        wf_kids(children_view(cs@)),
        forall|i: int| 0 <= i < row@.len() ==> wf_exprv(#[trigger] exprs_view(row@)[i]),
        forall|i: int| 0 <= i < table@.len() ==> wf_exprv(#[trigger] exprs_view(table@)[i]),
    ensures
        all_det(children_view(cs@)) ==> rv(res) == array_spec(
            children_view(cs@),
            k as int,
            exprs_view(row@),
            exprs_view(table@),
            saw,
        ),
        ok_wf(res),
    decreases cs, 1int, cs@.len() - k,
{
    proof {
        reveal(eval_spec);
        lemma_children_view(cs@);
        lemma_exprs_view(row@);
        lemma_exprs_view(table@);
    }
    if k >= cs.len() {
        if !saw {
            let out = Expr::Array(row);
            proof {
                assert(wf_exprv(out@));
            }
            return Ok(out);
        } else {
            let mut t = table;
            let ghost told = t@;
            let ghost rowv = exprs_view(row@);
            proof {
                assert(wf_exprv(ExprV::Array(rowv)));
            }
            t.push(Expr::Array(row));
            proof {
                lemma_exprs_view_push(told, Expr::Array(row));
                lemma_exprs_view(t@);
                assert(wf_exprv(ExprV::Array(exprs_view(t@)))) by {
                    assert(forall|i: int|
                        0 <= i < told.len() ==> exprs_view(t@)[i] == #[trigger] exprs_view(
                            told,
                        )[i]);
                    assert(exprs_view(t@)[told.len() as int] == ExprV::Array(rowv));
                }
            }
            return Ok(Expr::Array(t));
        }
    }
    proof {
        assert(children_view(cs@)[k as int] == cs@[k as int]@);
    }
    let rl = cs[k].rule;
    proof {
        assert(children_view(cs@)[k as int] == cs@[k as int]@);
    }
    match rl {
        Rule::array_col_sep => eval_array(cs, k + 1, row, table, saw, f),
        Rule::array_row_sep => {
            let mut t = table;
            let ghost told = t@;
            t.push(Expr::Array(row));
            proof {
                lemma_exprs_view_push(told, Expr::Array(row));
                lemma_exprs_view(t@);
            }
            eval_array(cs, k + 1, Vec::new(), t, true, f)
        },
        _ => {
            proof {
                assert(children_view(cs@)[k as int] == cs@[k as int]@);
                assert(!is_separator(children_view(cs@)[k as int].rule));
                assert(wf_node(cs@[k as int]@));
                if all_det(children_view(cs@)) {
                    assert(is_det(children_view(cs@)[k as int]));
                    assert(is_det(cs@[k as int]@));
                }
            }
            match eval(&cs[k], f) {
                Err(e) => Err(e),
                Ok(v) => {
                    let mut rw = row;
                    let ghost rold = rw@;
                    let ghost vg = v;
                    rw.push(v);
                    proof {
                        lemma_exprs_view_push(rold, vg);
                        lemma_exprs_view(rw@);
                    }
                    eval_array(cs, k + 1, rw, table, saw, f)
                },
            }
        },
    }
}

/// Evaluate one node.  On trees free of the non-deterministic leaves
/// the outcome equals `eval_spec` of the tree.
pub fn eval<F: Fetcher>(n: &Node, f: &mut F) -> (res: Result<Expr, Error>)
    requires
        wf_node(n@),
    ensures
        is_det(n@) ==> rv(res) == eval_spec(n@),
        ok_wf(res),
        n@.rule == Rule::rand ==> unit_number_res(rv(res)),
        n@.rule == Rule::now ==> (rv(res) matches Ok(e) && e is Datetime),
        n@.rule == Rule::today ==> (rv(res) matches Ok(e) && e is Date),
        n@.rule == Rule::webservice && all_det(n@.children) ==> webservice_post(n@, rv(res)),
        is_unimplemented(n@.rule) ==> rv(res) == Err::<ExprV, ErrV>(
            ErrV::NotImplemented(rule_name_spec(n@.rule)),
        ),
    decreases n, 2int, 0int,
{
    proof {
        reveal(eval_spec);
    }
    proof {
        lemma_children_view(n.children@);
    }
    let r = n.rule;
    if crate::rules::is_unimplemented_x(r) {
        proof {
            crate::rules::lemma_unimplemented_not_volatile(n@.rule);
        }
        return Err(Error::NotImplemented(rule_name(r)));
    }
    if crate::ops::is_op_rule_x(r) {
        return eval_op(n, f);
    }
    if crate::fn_math::is_math_rule_x(r) {
        return eval_math(n, f);
    }
    if crate::fn_text::is_text_rule_x(r) {
        return eval_text(n, f);
    }
    if crate::fn_date::is_date_rule_x(r) {
        return eval_date(n, f);
    }
    match r {
        Rule::num => {
            let cs = string_to_chars(n.text.as_str());
            match lit_num(&cs) {
                Some(q) => Ok(Expr::Number(q)),
                None => {
                    if crate::numfmt::lit_shape_x(&cs) {
                        Ok(Expr::Null)
                    } else {
                        Err(perr(Rule::num))
                    }
                },
            }
        },
        Rule::string => Ok(Expr::String(n.text.clone())),
        Rule::bool_true => Ok(Expr::Bool(true)),
        Rule::bool_false => Ok(Expr::Bool(false)),
        Rule::array => {
            let res = eval_array(&n.children, 0, Vec::new(), Vec::new(), false, f);
            res
        },
        Rule::and => eval_logic(n, Rule::and, f),
        Rule::or => eval_logic(n, Rule::or, f),
        Rule::xor => eval_logic(n, Rule::xor, f),
        Rule::not => {
            match eval_arg(&n.children, 0, Rule::not, f) {
                Err(e) => Err(e),
                Ok(v) => match v {
                    Expr::Bool(b) => Ok(Expr::Bool(!b)),
                    _ => Err(perr(Rule::not)),
                },
            }
        },
        Rule::if_ => {
            match eval_arg(&n.children, 0, Rule::if_, f) {
                Err(e) => Err(e),
                Ok(c) => match eval_argd(&n.children, 1, Expr::Number(Num::int_c(0)), f) {
                    Err(e) => Err(e),
                    Ok(tv) => match eval_argd(&n.children, 2, Expr::Number(Num::int_c(0)), f) {
                        Err(e) => Err(e),
                        Ok(fv) => match c {
                            Expr::Bool(b) => if b {
                                Ok(tv)
                            } else {
                                Ok(fv)
                            },
                            _ => Err(perr(Rule::if_)),
                        },
                    },
                },
            }
        },
        Rule::ifna => {
            match eval_arg(&n.children, 0, Rule::ifna, f) {
                Err(e) => Err(e),
                Ok(v) => match eval_arg(&n.children, 1, Rule::ifna, f) {
                    Err(e) => Err(e),
                    Ok(na) => match v {
                        Expr::Null => Ok(na),
                        other => Ok(other),
                    },
                },
            }
        },
        Rule::iferror => {
            if n.children.len() < 2 {
                return Err(perr(Rule::iferror));
            }
            proof {
                assert(children_view(n.children@)[0] == n.children@[0]@);
                assert(children_view(n.children@)[1] == n.children@[1]@);
            }
            match eval(&n.children[0], f) {
                Ok(v) => Ok(v),
                Err(_) => match eval(&n.children[1], f) {
                    Ok(w) => Ok(w),
                    Err(_) => Err(perr(Rule::iferror)),
                },
            }
        },
        Rule::encodeurl => {
            match eval_arg(&n.children, 0, Rule::encodeurl, f) {
                Err(e) => Err(e),
                Ok(v) => match v {
                    Expr::String(s) => Ok(Expr::String(crate::web::url_encode(s.as_str()))),
                    _ => Err(perr(Rule::encodeurl)),
                },
            }
        },
        Rule::webservice => {
            let a0 = eval_arg(&n.children, 0, Rule::webservice, f);
            let res0: Result<Expr, Error> = match a0 {
                Err(e) => Err(e),
                Ok(v) => match v {
                    Expr::String(s) => match f.fetch(s.as_str()) {
                        Ok(t) => Ok(Expr::String(t)),
                        Err(_) => Err(perr(Rule::webservice)),
                    },
                    _ => Err(perr(Rule::webservice)),
                },
            };
            proof {
                if all_det(n@.children) {
                    assert(webservice_post(n@, rv(res0)));
                }
            }
            res0
        },
        _ => {
            proof {
                assert(!is_separator(n@.rule));
            }
            Err(perr(r))
        },
    }
}

/// Exec twin of `fold_bools`.
fn fold_bools_x(vs: &Vec<Expr>, b0: bool, r: Rule) -> (res: Result<bool, Error>)
    requires
        r == Rule::and || r == Rule::or || r == Rule::xor,
    ensures
        match res {
            Ok(b) => fold_bools(exprs_view(vs@), 0, b0, r) == Ok::<ExprV, ErrV>(ExprV::Bool(b)),
            Err(e) => fold_bools(exprs_view(vs@), 0, b0, r) == Err::<ExprV, ErrV>(e@),
        },
{
    let mut acc = b0;
    let mut k: usize = 0;
    proof {
        lemma_exprs_view(vs@);
    }
    while k < vs.len()
        invariant
            0 <= k <= vs@.len(),
            exprs_view(vs@).len() == vs@.len(),
            forall|i: int| 0 <= i < vs@.len() ==> exprs_view(vs@)[i] == #[trigger] vs@[i]@,
            fold_bools(exprs_view(vs@), 0, b0, r) == fold_bools(exprs_view(vs@), k as int, acc, r),
            r == Rule::and || r == Rule::or || r == Rule::xor,
        decreases vs@.len() - k,
    {
        proof {
            assert(exprs_view(vs@)[k as int] == vs@[k as int]@);
        }
        match &vs[k] {
            Expr::Bool(b) => {
                let bb = *b;
                acc = if matches!(r, Rule::and) {
                    acc && bb
                } else if matches!(r, Rule::or) {
                    acc || bb
                } else {
                    acc != bb
                };
            },
            _ => {
                return Err(perr(r));
            },
        }
        k += 1;
    }
    Ok(acc)
}

/// Exec twin of `eval_logic_fold`.
fn eval_logic<F: Fetcher>(n: &Node, r: Rule, f: &mut F) -> (res: Result<Expr, Error>)
    requires
        wf_node(n@),
        n@.rule == r,
        r == Rule::and || r == Rule::or || r == Rule::xor,
    ensures
        is_det(n@) ==> rv(res) == eval_logic_fold(n@, r),
        ok_wf(res),
    decreases n, 1int, 0int,
{
    proof {
        reveal(eval_spec);
        lemma_children_view(n.children@);
        assert(n@.children == children_view(n.children@));
        lemma_node_kids(n@);
    }
    match eval_arg(&n.children, 0, r, f) {
        Err(e) => Err(e),
        Ok(first) => match eval_rest(&n.children, 1, f) {
            Err(e) => Err(e),
            Ok(vs) => match first {
                Expr::Bool(b0) => {
                    let res0 = fold_bools_x(&vs, b0, r);
                    match res0 {
                        Ok(b) => Ok(Expr::Bool(b)),
                        Err(e) => Err(e),
                    }
                },
                other => Err(perr(r)),
            },
        },
    }
}

} // verus!