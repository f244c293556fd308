//! The grammar: a recursive-descent parser from characters to the
//! rule-tagged parse tree.
//!
//! The language is the one the evaluator understands: an optional
//! leading `=`, then one formula, which is a number, a `'...'` string,
//! a `{...}` array, `TRUE`/`FALSE` (with or without `()`), or a
//! catalog function call `NAME(arg, ...)`, case-insensitive, with
//! whitespace allowed between tokens.  Each exec function mirrors a
//! spec twin exactly, so parsing is a mathematical function of the
//! input text.

use crate::node::children_view;
use crate::node::lemma_children_view;
use crate::node::lemma_children_view_cons;
use crate::node::wf_node;
use crate::node::Node;
use crate::node::NodeV;
use crate::rules::classify;
use crate::rules::classify_spec;
use crate::rules::is_separator;
use crate::rules::name_is;
use crate::rules::Rule;
use crate::strings::chars_to_string;
use crate::strings::is_ws;
use crate::strings::is_ws_char;
use crate::strings::skip_ws_spec;
use vstd::prelude::*;

verus! {

pub open spec fn is_digit_char(c: char) -> bool {
    0x30 <= c as u32 <= 0x39
}

pub open spec fn is_alpha_char(c: char) -> bool {
    let u = c as u32;
    (0x41 <= u <= 0x5A) || (0x61 <= u <= 0x7A)
}

/// Characters a function name may contain: letters, digits, `.`, `_`.
pub open spec fn is_ident_char(c: char) -> bool {
    is_alpha_char(c) || is_digit_char(c) || c as u32 == 0x2E || c as u32 == 0x5F
}

/// ASCII upper-casing of one character; names match case-insensitively.
pub open spec fn upper_ascii_char(c: char) -> char {
    let u = c as u32;
    if 0x61 <= u <= 0x7A {
        ((u - 32) as u8) as char
    } else {
        c
    }
}

pub open spec fn upper_ascii(s: Seq<char>) -> Seq<char> {
    Seq::new(s.len(), |k: int| upper_ascii_char(s[k]))
}

pub open spec fn scan_ident_spec(s: Seq<char>, i: int) -> int
    decreases s.len() - i,
{
    if 0 <= i < s.len() && is_ident_char(s[i]) {
        scan_ident_spec(s, i + 1)
    } else {
        i
    }
}

pub open spec fn scan_digits_spec(s: Seq<char>, i: int) -> int
    decreases s.len() - i,
{
    if 0 <= i < s.len() && is_digit_char(s[i]) {
        scan_digits_spec(s, i + 1)
    } else {
        i
    }
}

/// Position of the next `'` quote at or after `i`, or the length.
pub open spec fn scan_quote_spec(s: Seq<char>, i: int) -> int
    decreases s.len() - i,
{
    if 0 <= i < s.len() {
        if s[i] == '\'' {
            i
        } else {
            scan_quote_spec(s, i + 1)
        }
    } else {
        s.len() as int
    }
}

pub open spec fn leaf_v(rule: Rule, text: Seq<char>) -> NodeV {
    NodeV { rule, text, children: Seq::empty() }
}

/// A numeric literal: optional `-`, digits, optional `.` and more
/// digits; at least one digit in all.
pub open spec fn parse_num_spec(s: Seq<char>, i: int) -> Option<(NodeV, int)> {
    let jm = if 0 <= i < s.len() && s[i] == '-' {
        i + 1
    } else {
        i
    };
    let j1 = scan_digits_spec(s, jm);
    let dot = 0 <= j1 < s.len() && s[j1] == '.';
    let j2 = if dot {
        scan_digits_spec(s, j1 + 1)
    } else {
        j1
    };
    let digits = (j1 - jm) + (if dot {
        j2 - j1 - 1
    } else {
        0
    });
    if digits > 0 {
        Some((leaf_v(Rule::num, s.subrange(i, j2)), j2))
    } else {
        None
    }
}

/// A `'...'` string literal; its text is the span between the quotes,
/// kept verbatim (there are no escapes).
pub open spec fn parse_string_spec(s: Seq<char>, i: int) -> Option<(NodeV, int)> {
    let j = scan_quote_spec(s, i + 1);
    if j < s.len() {
        Some((leaf_v(Rule::string, s.subrange(i + 1, j)), j + 1))
    } else {
        None
    }
}

pub open spec fn parse_formula_spec(s: Seq<char>, i: int) -> Option<(NodeV, int)>
    decreases s.len() - i, 0int,
{
    if !(0 <= i < s.len()) {
        None
    } else {
        let c = s[i];
        if is_digit_char(c) || c == '-' || c == '.' {
            parse_num_spec(s, i)
        } else if c == '\'' {
            parse_string_spec(s, i)
        } else if c == '{' {
            let k = skip_ws_spec(s, i + 1);
            if 0 <= k < s.len() && s[k] == '}' {
                Some((NodeV { rule: Rule::array, text: Seq::empty(), children: Seq::empty() }, k + 1))
            } else {
                match parse_items_spec(s, i + 1) {
                    Some(p) => Some(
                        (NodeV { rule: Rule::array, text: Seq::empty(), children: p.0 }, p.1),
                    ),
                    None => None,
                }
            }
        } else if is_alpha_char(c) {
            let j = scan_ident_spec(s, i + 1);
            let name = upper_ascii(s.subrange(i, j));
            if name == "TRUE"@ || name == "FALSE"@ {
                let rule = if name == "TRUE"@ {
                    Rule::bool_true
                } else {
                    Rule::bool_false
                };
                let k = skip_ws_spec(s, j);
                if 0 <= k < s.len() && s[k] == '(' {
                    let k2 = skip_ws_spec(s, k + 1);
                    if 0 <= k2 < s.len() && s[k2] == ')' {
                        Some((leaf_v(rule, Seq::empty()), k2 + 1))
                    } else {
                        None
                    }
                } else {
                    Some((leaf_v(rule, Seq::empty()), j))
                }
            } else {
                match classify_spec(name) {
                    Some(rule) => {
                        let k = skip_ws_spec(s, j);
                        if 0 <= k < s.len() && s[k] == '(' && k >= i {
                            let k2 = skip_ws_spec(s, k + 1);
                            if 0 <= k2 < s.len() && s[k2] == ')' {
                                Some(
                                    (
                                        NodeV {
                                            rule,
                                            text: Seq::empty(),
                                            children: Seq::empty(),
                                        },
                                        k2 + 1,
                                    ),
                                )
                            } else {
                                match parse_args_spec(s, k + 1) {
                                    Some(p) => if 0 <= p.1 < s.len() && s[p.1] == ')' {
                                        Some(
                                            (
                                                NodeV {
                                                    rule,
                                                    text: Seq::empty(),
                                                    children: p.0,
                                                },
                                                p.1 + 1,
                                            ),
                                        )
                                    } else {
                                        None
                                    },
                                    None => None,
                                }
                            }
                        } else {
                            None
                        }
                    },
                    None => None,
                }
            }
        } else {
            None
        }
    }
}

/// A comma-separated argument list; stops before the closing `)`.
pub open spec fn parse_args_spec(s: Seq<char>, i: int) -> Option<(Seq<NodeV>, int)>
    decreases s.len() - i, 1int,
{
    let i2 = skip_ws_spec(s, i);
    if !(i <= i2 <= s.len()) {
        None
    } else {
        match parse_formula_spec(s, i2) {
            None => None,
            Some((n, j)) => if !(i2 < j) {
                None
            } else {
                let k = skip_ws_spec(s, j);
                if 0 <= k < s.len() && s[k] == ',' && k >= i {
                    match parse_args_spec(s, k + 1) {
                        None => None,
                        Some(p) => Some((seq![n] + p.0, p.1)),
                    }
                } else if j <= k {
                    Some((seq![n], k))
                } else {
                    None
                }
            },
        }
    }
}

/// Array elements with their `,` and `;` separator markers; consumes
/// the closing `}`.
pub open spec fn parse_items_spec(s: Seq<char>, i: int) -> Option<(Seq<NodeV>, int)>
    decreases s.len() - i, 1int,
{
    let i2 = skip_ws_spec(s, i);
    if !(i <= i2 <= s.len()) {
        None
    } else {
        match parse_formula_spec(s, i2) {
            None => None,
            Some((n, j)) => if !(i2 < j) {
                None
            } else {
                let k = skip_ws_spec(s, j);
                if 0 <= k < s.len() && (s[k] == ',' || s[k] == ';') && k >= i {
                    let sep = if s[k] == ',' {
                        leaf_v(Rule::array_col_sep, Seq::empty())
                    } else {
                        leaf_v(Rule::array_row_sep, Seq::empty())
                    };
                    match parse_items_spec(s, k + 1) {
                        None => None,
                        Some(p) => Some((seq![n, sep] + p.0, p.1)),
                    }
                } else if 0 <= k < s.len() && s[k] == '}' {
                    Some((seq![n], k + 1))
                } else {
                    None
                }
            },
        }
    }
}

/// The whole input: optional `=`, one formula, end of input;
/// whitespace is free around tokens.
pub open spec fn parse_root_spec(s: Seq<char>) -> Option<NodeV> {
    let a = skip_ws_spec(s, 0);
    let b = if 0 <= a < s.len() && s[a] == '=' {
        a + 1
    } else {
        a
    };
    let c = skip_ws_spec(s, b);
    match parse_formula_spec(s, c) {
        None => None,
        Some((n, j)) => if skip_ws_spec(s, j) == s.len() {
            Some(n)
        } else {
            None
        },
    }
}

/// Exec twin of `skip_ws_spec`.
pub fn skip_ws_x(s: &Vec<char>, i: usize) -> (r: usize)
    requires
        i <= s@.len(),
    ensures
        r as int == skip_ws_spec(s@, i as int),
        i <= r <= s@.len(),
{
    let mut k = i;
    while k < s.len() && is_ws(s[k])
        invariant
            i <= k <= s@.len(),
            skip_ws_spec(s@, i as int) == skip_ws_spec(s@, k as int),
        decreases s@.len() - k,
    {
        k += 1;
    }
    k
}

fn scan_ident_x(s: &Vec<char>, i: usize) -> (r: usize)
    requires
        i <= s@.len(),
    ensures
        r as int == scan_ident_spec(s@, i as int),
        i <= r <= s@.len(),
{
    let mut k = i;
    while k < s.len() && is_ident_x(s[k])
        invariant
            i <= k <= s@.len(),
            scan_ident_spec(s@, i as int) == scan_ident_spec(s@, k as int),
        decreases s@.len() - k,
    {
        k += 1;
    }
    k
}

fn is_ident_x(c: char) -> (r: bool)
    ensures
        r == is_ident_char(c),
{
    let u = c as u32;
    (0x41 <= u && u <= 0x5A) || (0x61 <= u && u <= 0x7A) || (0x30 <= u && u <= 0x39) || u == 0x2E
        || u == 0x5F
}

fn is_digit_x(c: char) -> (r: bool)
    ensures
        r == is_digit_char(c),
{
    let u = c as u32;
    0x30 <= u && u <= 0x39
}

fn scan_digits_x(s: &Vec<char>, i: usize) -> (r: usize)
    requires
        i <= s@.len(),
    ensures
        r as int == scan_digits_spec(s@, i as int),
        i <= r <= s@.len(),
{
    let mut k = i;
    while k < s.len() && is_digit_x(s[k])
        invariant
            i <= k <= s@.len(),
            scan_digits_spec(s@, i as int) == scan_digits_spec(s@, k as int),
        decreases s@.len() - k,
    {
        k += 1;
    }
    k
}

fn scan_quote_x(s: &Vec<char>, i: usize) -> (r: usize)
    requires
        i <= s@.len(),
    ensures
        r as int == scan_quote_spec(s@, i as int),
        i <= r <= s@.len(),
{
    let mut k = i;
    while k < s.len() && s[k] != '\''
        invariant
            i <= k <= s@.len(),
            scan_quote_spec(s@, i as int) == scan_quote_spec(s@, k as int),
        decreases s@.len() - k,
    {
        k += 1;
    }
    k
}

/// Copy of the span `a..b`.
pub(crate) fn seg(s: &Vec<char>, a: usize, b: usize) -> (r: Vec<char>)
    requires
        a <= b <= s@.len(),
    ensures
        r@ == s@.subrange(a as int, b as int),
{
    let mut out: Vec<char> = Vec::new();
    let mut k = a;
    while k < b
        invariant
            a <= k <= b <= s@.len(),
            out@ == s@.subrange(a as int, k as int),
        decreases b - k,
    {
        out.push(s[k]);
        proof {
            assert(out@ =~= s@.subrange(a as int, k + 1));
        }
        k += 1;
    }
    out
}

/// ASCII upper-casing of a name token.
fn upper_vec(v: &Vec<char>) -> (r: Vec<char>)
    ensures
        r@ == upper_ascii(v@),
{
    let mut out: Vec<char> = Vec::new();
    let mut k: usize = 0;
    while k < v.len()
        invariant
            0 <= k <= v@.len(),
            out@.len() == k,
            forall|j: int| 0 <= j < k ==> out@[j] == upper_ascii_char(v@[j]),
        decreases v@.len() - k,
    {
        let c = v[k];
        let u = c as u32;
        if 0x61 <= u && u <= 0x7A {
            out.push(((u - 32) as u8) as char);
        } else {
            out.push(c);
        }
        k += 1;
    }
    proof {
        assert(out@ =~= upper_ascii(v@));
    }
    out
}

fn leaf_x(rule: Rule, text: String) -> (r: Node)
    ensures
        r@ == leaf_v(rule, text@),
        r.children@.len() == 0,
{
    let r = Node { rule, text, children: Vec::new() };
    proof {
        assert(children_view(r.children@) =~= Seq::<NodeV>::empty());
    }
    r
}

fn parse_num_x(s: &Vec<char>, i: usize) -> (r: Option<(Node, usize)>)
    requires
        i < s@.len(),
    ensures
        match r {
            Some((n, p)) => parse_num_spec(s@, i as int) == Some((n@, p as int)) && i < p
                <= s@.len() && wf_node(n@),
            None => parse_num_spec(s@, i as int) is None,
        },
{
    let len = s.len();
    let jm: usize = if s[i] == '-' {
        i + 1
    } else {
        i
    };
    let j1 = scan_digits_x(s, jm);
    let dot = j1 < len && s[j1] == '.';
    let j2 = if dot {
        scan_digits_x(s, j1 + 1)
    } else {
        j1
    };
    let digits: usize = (j1 - jm) + (if dot {
        j2 - j1 - 1
    } else {
        0
    });
    if digits > 0 {
        let text = chars_to_string(&seg(s, i, j2));
        Some((leaf_x(Rule::num, text), j2))
    } else {
        None
    }
}

fn parse_string_x(s: &Vec<char>, i: usize) -> (r: Option<(Node, usize)>)
    requires
        i < s@.len(),
    ensures
        match r {
            Some((n, p)) => parse_string_spec(s@, i as int) == Some((n@, p as int)) && i < p
                <= s@.len() && wf_node(n@),
            None => parse_string_spec(s@, i as int) is None,
        },
{
    let len = s.len();
    let j = scan_quote_x(s, i + 1);
    if j < len {
        let text = chars_to_string(&seg(s, i + 1, j));
        Some((leaf_x(Rule::string, text), j + 1))
    } else {
        None
    }
}

pub fn parse_formula_x(s: &Vec<char>, i: usize) -> (r: Option<(Node, usize)>)
    requires
        i <= s@.len(),
    ensures
        match r {
            Some((n, p)) => parse_formula_spec(s@, i as int) == Some((n@, p as int)) && i < p
                <= s@.len() && wf_node(n@),
            None => parse_formula_spec(s@, i as int) is None,
        },
    decreases s@.len() - i, 0int,
{
    proof {
        reveal(crate::rules::classify_spec);
    }
    let len = s.len();
    if i >= len {
        return None;
    }
    let c = s[i];
    let u = c as u32;
    if (0x30 <= u && u <= 0x39) || c == '-' || c == '.' {
        parse_num_x(s, i)
    } else if c == '\'' {
        parse_string_x(s, i)
    } else if c == '{' {
        let k = skip_ws_x(s, i + 1);
        if k < len && s[k] == '}' {
            let node = leaf_x(Rule::array, String::new());
            Some((node, k + 1))
        } else {
            match parse_items_x(s, i + 1) {
                Some((items, p)) => {
                    proof {
                        lemma_children_view(items@);
                    }
                    let node = Node { rule: Rule::array, text: String::new(), children: items };
                    Some((node, p))
                },
                None => None,
            }
        }
    } else if (0x41 <= u && u <= 0x5A) || (0x61 <= u && u <= 0x7A) {
        let j = scan_ident_x(s, i + 1);
        let tok = seg(s, i, j);
        let up = upper_vec(&tok);
        if name_is(&up, "TRUE") || name_is(&up, "FALSE") {
            let rule = if name_is(&up, "TRUE") {
                Rule::bool_true
            } else {
                Rule::bool_false
            };
            let k = skip_ws_x(s, j);
            if k < len && s[k] == '(' {
                let k2 = skip_ws_x(s, k + 1);
                if k2 < len && s[k2] == ')' {
                    Some((leaf_x(rule, String::new()), k2 + 1))
                } else {
                    None
                }
            } else {
                Some((leaf_x(rule, String::new()), j))
            }
        } else {
            match classify(&up) {
                Some(rule) => {
                    let k = skip_ws_x(s, j);
                    if k < len && s[k] == '(' {
                        let k2 = skip_ws_x(s, k + 1);
                        if k2 < len && s[k2] == ')' {
                            let node = leaf_x(rule, String::new());
                            Some((node, k2 + 1))
                        } else {
                            match parse_args_x(s, k + 1) {
                                Some((args, p)) => {
                                    if p < len && s[p] == ')' {
                                        proof {
                                            lemma_children_view(args@);
                                        }
                                        let node = Node {
                                            rule,
                                            text: String::new(),
                                            children: args,
                                        };
                                        Some((node, p + 1))
                                    } else {
                                        None
                                    }
                                },
                                None => None,
                            }
                        }
                    } else {
                        None
                    }
                },
                None => None,
            }
        }
    } else {
        None
    }
}

fn parse_args_x(s: &Vec<char>, i: usize) -> (r: Option<(Vec<Node>, usize)>)
    requires
        i <= s@.len(),
    ensures
        match r {
            Some((v, p)) => parse_args_spec(s@, i as int) == Some((children_view(v@), p as int))
                && i <= p <= s@.len() && (forall|k: int|
                0 <= k < v@.len() ==> wf_node(#[trigger] children_view(v@)[k])),
            None => parse_args_spec(s@, i as int) is None,
        },
    decreases s@.len() - i, 1int,
{
    let i2 = skip_ws_x(s, i);
    match parse_formula_x(s, i2) {
        None => None,
        Some((n, j)) => {
            let k = skip_ws_x(s, j);
            if k < s.len() && s[k] == ',' {
                match parse_args_x(s, k + 1) {
                    None => None,
                    Some((mut v, p)) => {
                        proof {
                            lemma_children_view(v@);
                            lemma_children_view_cons(n, v@);
                            assert(seq![n@] + children_view(v@) =~= parse_args_spec(
                                s@,
                                i as int,
                            )->Some_0.0);
                        }
                        let ghost oldv = v@;
                        v.insert(0, n);
                        proof {
                            assert(v@ == oldv.insert(0, n));
                            lemma_children_view(v@);
                        }
                        Some((v, p))
                    },
                }
            } else {
                let mut v: Vec<Node> = Vec::new();
                proof {
                    assert(children_view(v@) =~= Seq::<NodeV>::empty());
                }
                v.push(n);
                proof {
                    assert(v@ =~= seq![n]);
                    lemma_children_view_cons(n, Seq::empty());
                    assert(seq![n] + Seq::<Node>::empty() =~= seq![n]);
                    assert(children_view(v@) =~= seq![n@]);
                }
                Some((v, k))
            }
        },
    }
}

fn parse_items_x(s: &Vec<char>, i: usize) -> (r: Option<(Vec<Node>, usize)>)
    requires
        i <= s@.len(),
    ensures
        match r {
            Some((v, p)) => parse_items_spec(s@, i as int) == Some((children_view(v@), p as int))
                && i <= p <= s@.len() && (forall|k: int|
                0 <= k < v@.len() ==> is_separator(#[trigger] children_view(v@)[k].rule) || wf_node(
                    children_view(v@)[k],
                )),
            None => parse_items_spec(s@, i as int) is None,
        },
    decreases s@.len() - i, 1int,
{
    let i2 = skip_ws_x(s, i);
    match parse_formula_x(s, i2) {
        None => None,
        Some((n, j)) => {
            let k = skip_ws_x(s, j);
            if k < s.len() && (s[k] == ',' || s[k] == ';') {
                let sep = if s[k] == ',' {
                    leaf_x(Rule::array_col_sep, String::new())
                } else {
                    leaf_x(Rule::array_row_sep, String::new())
                };
                match parse_items_x(s, k + 1) {
                    None => None,
                    Some((mut v, p)) => {
                        proof {
                            lemma_children_view(v@);
                        }
                        let ghost oldv = v@;
                        let ghost sepg = sep;
                        v.insert(0, sep);
                        proof {
                            lemma_children_view_cons(sepg, oldv);
                        }
                        let ghost v1 = v@;
                        let ghost ng = n;
                        v.insert(0, n);
                        proof {
                            lemma_children_view_cons(ng, v1);
                            assert(v1 =~= seq![sepg] + oldv);
                            assert(children_view(v@) == seq![ng@] + (seq![sepg@] + children_view(
                                oldv,
                            )));
                            assert(children_view(v@) =~= seq![ng@, sepg@] + children_view(oldv));
                            lemma_children_view(v@);
                        }
                        Some((v, p))
                    },
                }
            } else if k < s.len() && s[k] == '}' {
                let mut v: Vec<Node> = Vec::new();
                proof {
                    assert(children_view(v@) =~= Seq::<NodeV>::empty());
                }
                v.push(n);
                proof {
                    assert(v@ =~= seq![n]);
                    lemma_children_view_cons(n, Seq::empty());
                    assert(seq![n] + Seq::<Node>::empty() =~= seq![n]);
                    assert(children_view(v@) =~= seq![n@]);
                }
                Some((v, k + 1))
            } else {
                None
            }
        },
    }
}

/// Exec twin of `parse_root_spec`.
pub fn parse_root_x(s: &Vec<char>) -> (r: Option<Node>)
    ensures
        match r {
            Some(n) => parse_root_spec(s@) == Some(n@) && wf_node(n@),
            None => parse_root_spec(s@) is None,
        },
{
    let a = skip_ws_x(s, 0);
    let b: usize = if a < s.len() && s[a] == '=' {
        a + 1
    } else {
        a
    };
    let c = skip_ws_x(s, b);
    match parse_formula_x(s, c) {
        None => None,
        Some((n, j)) => {
            let e = skip_ws_x(s, j);
            if e == s.len() {
                Some(n)
            } else {
                None
            }
        },
    }
}

} // verus!
