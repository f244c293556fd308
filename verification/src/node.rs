//! Parse-tree nodes.
//!
//! A node is a grammar-rule tag together with either a literal text
//! span (for `num` and `string` leaves) or an ordered list of child
//! nodes (for calls and array literals).

use crate::rules::is_separator;
use crate::rules::Rule;
use vstd::prelude::*;

verus! {

broadcast use vstd::std_specs::vec::axiom_vec_decreases_to_view;

/// An exec parse-tree node.
#[derive(Debug)]
pub struct Node {
    pub rule: Rule,
    pub text: String,
    pub children: Vec<Node>,
}

/// The mathematical shape of a node, used by every specification.
pub ghost struct NodeV {
    pub rule: Rule,
    pub text: Seq<char>,
    pub children: Seq<NodeV>,
}

impl View for Node {
    type V = NodeV;

    open spec fn view(&self) -> NodeV
        decreases self,
    {
        NodeV { rule: self.rule, text: self.text@, children: children_view(self.children@) }
    }
}

/// Views of a list of child nodes, in order.
pub open spec fn children_view(cs: Seq<Node>) -> Seq<NodeV>
    decreases cs,
{
    if cs.len() == 0 {
        Seq::empty()
    } else {
        seq![cs[0]@] + children_view(cs.drop_first())
    }
}

/// `children_view` is the element-wise view.
pub proof fn lemma_children_view(cs: Seq<Node>)
    ensures
        children_view(cs).len() == cs.len(),
        forall|i: int| 0 <= i < cs.len() ==> children_view(cs)[i] == #[trigger] cs[i]@,
    decreases cs.len(),
{
    if cs.len() > 0 {
        lemma_children_view(cs.drop_first());
        let rest = children_view(cs.drop_first());
        assert(children_view(cs) == seq![cs[0]@] + rest);
        assert(children_view(cs).len() == 1 + rest.len());
        assert forall|i: int| 0 <= i < cs.len() implies children_view(cs)[i] == #[trigger] cs[i]@
            by {
            if i == 0 {
                assert(children_view(cs)[0] == cs[0]@);
            } else {
                assert(cs.drop_first()[i - 1] == cs[i]);
                assert(children_view(cs)[i] == rest[i - 1]);
            }
        }
    }
}

/// `children_view` of a list with `e` put in front.
pub proof fn lemma_children_view_cons(e: Node, s: Seq<Node>)
    ensures
        children_view(seq![e] + s) == seq![e@] + children_view(s),
        children_view(s.insert(0, e)) == seq![e@] + children_view(s),
{
    let cs = seq![e] + s;
    assert(cs.len() > 0);
    assert(cs[0] == e);
    assert(cs.drop_first() =~= s);
    assert(children_view(cs) == seq![cs[0]@] + children_view(cs.drop_first()));
    assert(s.insert(0, e) =~= cs);
}

/// Well-formed tree: separator tags stand only among the children of
/// an `array` node, and every other node is itself well-formed.
pub open spec fn wf_node(n: NodeV) -> bool
    decreases n,
{
    !is_separator(n.rule) && forall|i: int|
        0 <= i < n.children.len() ==> if is_separator(#[trigger] n.children[i].rule) {
            n.rule == Rule::array
        } else {
            wf_node(n.children[i])
        }
}

} // verus!
