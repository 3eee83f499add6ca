//! `begin` with a single argument stands for that argument. This pass
//! replaces every such call by its argument, throughout a tree.

use crate::compile::node::nodes_view;
use crate::compile::node::Node;
use crate::compile::node::NodeModel;
use crate::text::str_equal;
use crate::types::duplicate_data;
use crate::types::duplicate_text;
use crate::types::NodeType;
use vstd::prelude::*;

verus! {

/// Whether a node is a call of the engine's `begin` with exactly one
/// argument.
pub open spec fn is_single_begin(n: NodeModel) -> bool {
    &&& n.node_type == NodeType::FunctionCall(true)
    &&& n.string_data == Some("begin"@)
    &&& n.parameters is Some
    &&& n.parameters->0.len() == 1
}

/// The tree without calls of `begin` with a single argument.
pub open spec fn collapse(n: NodeModel) -> NodeModel
    decreases n,
{
    if is_single_begin(n) {
        collapse(n.parameters->0[0])
    } else if n.node_type is FunctionCall && n.parameters is Some {
        NodeModel { parameters: Some(collapse_all(n.parameters->0)), ..n }
    } else {
        n
    }
}

/// Each tree of a list without calls of `begin` with a single argument.
pub open spec fn collapse_all(s: Seq<NodeModel>) -> Seq<NodeModel>
    decreases s,
{
    Seq::new(
        s.len(),
        |i: int|
            if 0 <= i < s.len() {
                collapse(s[i])
            } else {
                arbitrary()
            },
    )
}

/// Whether no call of `begin` with a single argument is left in a tree.
pub open spec fn is_collapsed(n: NodeModel) -> bool
    decreases n,
{
    &&& !is_single_begin(n)
    &&& n.node_type is FunctionCall && n.parameters is Some ==> forall|i: int|
        0 <= i < n.parameters->0.len() ==> is_collapsed(#[trigger] n.parameters->0[i])
}

/// Collapsing leaves no call of `begin` with a single argument, anywhere
/// in the tree.
pub proof fn lemma_collapse_is_collapsed(n: NodeModel)
    ensures
        is_collapsed(collapse(n)),
    decreases n,
{
    if is_single_begin(n) {
        lemma_collapse_is_collapsed(n.parameters->0[0]);
    } else if n.node_type is FunctionCall && n.parameters is Some {
        let p = n.parameters->0;
        let r = collapse(n);
        assert(r.parameters->0 == collapse_all(p));
        assert forall|i: int| 0 <= i < r.parameters->0.len() implies is_collapsed(
            #[trigger] r.parameters->0[i],
        ) by {
            lemma_collapse_is_collapsed(p[i]);
        }
    } else {
    }
}

/// A tree without such calls is left as it is.
pub proof fn lemma_collapse_fixed(n: NodeModel)
    requires
        is_collapsed(n),
    ensures
        collapse(n) == n,
    decreases n,
{
    if n.node_type is FunctionCall && n.parameters is Some {
        let p = n.parameters->0;
        assert forall|i: int| 0 <= i < p.len() implies collapse(p[i]) == p[i] by {
            assert(is_collapsed(n.parameters->0[i]));
            lemma_collapse_fixed(p[i]);
        }
        assert(collapse_all(p) =~= p);
    }
}

/// Collapsing twice is collapsing once.
pub proof fn lemma_collapse_idempotent(n: NodeModel)
    ensures
        collapse(collapse(n)) == collapse(n),
{
    lemma_collapse_is_collapsed(n);
    lemma_collapse_fixed(collapse(n));
}

/// The tree without calls of `begin` with a single argument.
pub fn optimize_begin(node: &Node) -> (r: Node)
    ensures
        r@ == collapse(node@),
        is_collapsed(r@),
    decreases node,
{
    proof {
        lemma_collapse_is_collapsed(node@);
    }
    let is_begin = match (&node.node_type, &node.string_data) {
        (NodeType::FunctionCall(true), Some(name)) => str_equal(name.as_str(), "begin"),
        _ => false,
    };
    let is_call = node.node_type.is_function_call();
    match &node.parameters {
        Some(parameters) => {
            if is_begin && parameters.len() == 1 {
                assert(nodes_view(parameters@)[0] == parameters@[0]@);
                return optimize_begin(&parameters[0]);
            }
            if is_call {
                let collapsed = optimize_all(parameters);
                return Node {
                    value_type: node.value_type,
                    node_type: node.node_type,
                    string_data: duplicate_text(&node.string_data),
                    data: duplicate_data(&node.data),
                    index: node.index,
                    parameters: Some(collapsed),
                    file: node.file,
                    line: node.line,
                    column: node.column,
                };
            }
            node.duplicate()
        },
        None => node.duplicate(),
    }
}

/// Each tree of a list without calls of `begin` with a single argument.
pub fn optimize_all(nodes: &Vec<Node>) -> (r: Vec<Node>)
    ensures
        nodes_view(r@) == collapse_all(nodes_view(nodes@)),
        r@.len() == nodes@.len(),
    decreases nodes,
{
    let mut out: Vec<Node> = Vec::new();
    let mut i: usize = 0;
    while i < nodes.len()
        invariant
            i <= nodes.len(),
            out.len() == i,
            forall|j: int| 0 <= j < i ==> out[j]@ == collapse(nodes[j]@),
        decreases nodes.len() - i,
    {
        out.push(optimize_begin(&nodes[i]));
        i += 1;
    }
    assert(nodes_view(out@) =~= collapse_all(nodes_view(nodes@)));
    out
}

} // verus!
