//! A parser and evaluator of spreadsheet-like formulas.
//!
//! A formula such as `=UPPER(TRIM('   Hello '))` is first parsed into a
//! rule-tagged tree and then evaluated recursively against a catalog of
//! built-in operators and functions, producing a single [`Expr`] value.
//!
//! Numbers are kept as exact rationals with 63-bit numerator and
//! denominator; an operation whose reduced result does not fit yields
//! [`Expr::Null`], the same value used for domain errors such as division
//! by zero.  Transcendental functions are computed deterministically to
//! twelve decimal places.  The one outward capability, the `WEBSERVICE`
//! transport, is a trait the embedder supplies; everything else is pure.

use vstd::prelude::*;

mod approx;
mod date;
mod eval;
mod expr;
mod fn_date;
mod fn_math;
mod fn_text;
mod json;
mod laws;
mod node;
mod num;
mod numfmt;
mod ops;
mod parse;
mod rules;
mod strings;
mod web;

pub use date::DateVal;
pub use date::DatetimeVal;
pub use date::TimeVal;
pub use eval::Fetcher;
pub use eval::StubFetcher;
pub use expr::Expr;
pub use node::Node;
pub use num::Num;
pub use rules::Rule;

verus! {

/// Error type of the crate.
///
/// `Error::Parser` means the formula text is invalid or a function was
/// handed operands of the wrong type or shape; `Error::NotImplemented`
/// means the grammar recognizes the function but no behaviour exists for
/// it yet. Both carry the name of the offending grammar rule.
#[derive(Debug, PartialEq, Eq)]
pub enum Error {
    Parser(String),
    NotImplemented(String),
}

/// The mathematical shape of an [`Error`].
pub ghost enum ErrV {
    Parser(Seq<char>),
    NotImplemented(Seq<char>),
}

impl View for Error {
    type V = ErrV;

    open spec fn view(&self) -> ErrV {
        match self {
            Error::Parser(s) => ErrV::Parser(s@),
            Error::NotImplemented(s) => ErrV::NotImplemented(s@),
        }
    }
}

/// The diagnostic line an error is reported with.
pub open spec fn err_text_spec(e: ErrV) -> Seq<char> {
    match e {
        ErrV::Parser(s) => "Parser Error: Invalid `"@ + s + "` expression"@,
        ErrV::NotImplemented(s) => "Not Implemented Yet: `"@ + s
            + "` function is not implemented yet"@,
    }
}

impl Error {
    /// The diagnostic line for this error, exactly as `err_text_spec`
    /// renders its shape.
    pub fn text(&self) -> (r: String)
        ensures
            r@ == err_text_spec(self@),
    {
        match self {
            Error::Parser(s) => {
                let mut v = crate::strings::string_to_chars("Parser Error: Invalid `");
                let mid = crate::strings::string_to_chars(s.as_str());
                crate::fn_text::extend_chars(&mut v, &mid);
                let tail = crate::strings::string_to_chars("` expression");
                crate::fn_text::extend_chars(&mut v, &tail);
                proof {
                    assert(v@ =~= err_text_spec(self@));
                }
                crate::strings::chars_to_string(&v)
            },
            Error::NotImplemented(s) => {
                let mut v = crate::strings::string_to_chars("Not Implemented Yet: `");
                let mid = crate::strings::string_to_chars(s.as_str());
                crate::fn_text::extend_chars(&mut v, &mid);
                let tail = crate::strings::string_to_chars("` function is not implemented yet");
                crate::fn_text::extend_chars(&mut v, &tail);
                proof {
                    assert(v@ =~= err_text_spec(self@));
                }
                crate::strings::chars_to_string(&v)
            },
        }
    }
}

/// One parsed formula, wrapping a single rooted parse tree; consumed
/// by evaluation.
#[derive(Debug)]
pub struct Formula {
    root: Node,
}

impl Formula {
    /// The tree this formula wraps, for specifications.
    pub closed spec fn tree(&self) -> crate::node::NodeV {
        self.root@
    }

    /// A formula made by [`Formula::new`] always wraps a well-formed
    /// tree.
    pub open spec fn wf(&self) -> bool {
        crate::node::wf_node(self.tree())
    }

    /// Parse formula text into a [`Formula`].  Returns the `root`
    /// parser error exactly when the text does not belong to the
    /// grammar.
    pub fn new(formula: &str) -> (r: Result<Formula, Error>)
        ensures
            match r {
                Ok(f) => crate::parse::parse_root_spec(formula@) == Some(f.tree()) && f.wf(),
                Err(e) => crate::parse::parse_root_spec(formula@) is None && e@ == ErrV::Parser(
                    "root"@,
                ),
            },
    {
        let cs = crate::strings::string_to_chars(formula);
        match crate::parse::parse_root_x(&cs) {
            Some(root) => Ok(Formula { root }),
            None => Err(Error::Parser("root".to_owned())),
        }
    }

    /// Evaluate the formula with the built-in fetcher.  On trees free
    /// of the non-deterministic leaves the result is exactly the
    /// mathematical evaluation of the tree.
    pub fn parse(self) -> (r: Result<Expr, Error>)
        requires
            self.wf(),
        ensures
            crate::eval::is_det(self.tree()) ==> crate::eval::rv(r) == crate::eval::eval_spec(
                self.tree(),
            ),
            crate::eval::ok_wf(r),
            self.tree().rule == Rule::rand ==> crate::eval::unit_number_res(crate::eval::rv(r)),
            self.tree().rule == Rule::now ==> (crate::eval::rv(r) matches Ok(e) && e is Datetime),
            self.tree().rule == Rule::today ==> (crate::eval::rv(r) matches Ok(e) && e is Date),
            self.tree().rule == Rule::webservice && crate::eval::all_det(self.tree().children)
                ==> crate::eval::webservice_post(self.tree(), crate::eval::rv(r)),
            crate::rules::is_unimplemented(self.tree().rule) ==> crate::eval::rv(r) == Err::<
                crate::expr::ExprV,
                ErrV,
            >(ErrV::NotImplemented(crate::rules::rule_name_spec(self.tree().rule))),
    {
        let mut f = StubFetcher;
        crate::eval::eval(&self.root, &mut f)
    }

    /// Evaluate the formula against a caller-supplied `WEBSERVICE`
    /// transport.
    pub fn parse_with<F: Fetcher>(self, f: &mut F) -> (r: Result<Expr, Error>)
        requires
            self.wf(),
        ensures
            crate::eval::is_det(self.tree()) ==> crate::eval::rv(r) == crate::eval::eval_spec(
                self.tree(),
            ),
            crate::eval::ok_wf(r),
            self.tree().rule == Rule::rand ==> crate::eval::unit_number_res(crate::eval::rv(r)),
            self.tree().rule == Rule::now ==> (crate::eval::rv(r) matches Ok(e) && e is Datetime),
            self.tree().rule == Rule::today ==> (crate::eval::rv(r) matches Ok(e) && e is Date),
            self.tree().rule == Rule::webservice && crate::eval::all_det(self.tree().children)
                ==> crate::eval::webservice_post(self.tree(), crate::eval::rv(r)),
            crate::rules::is_unimplemented(self.tree().rule) ==> crate::eval::rv(r) == Err::<
                crate::expr::ExprV,
                ErrV,
            >(ErrV::NotImplemented(crate::rules::rule_name_spec(self.tree().rule))),
    {
        crate::eval::eval(&self.root, f)
    }
}

} // verus!
