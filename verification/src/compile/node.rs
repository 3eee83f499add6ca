//! The tree that analysis gives for an expression.

use crate::types::data_view;
use crate::types::duplicate_data;
use crate::types::duplicate_text;
use crate::types::text_view;
use crate::types::NodeData;
use crate::types::NodeDataModel;
use crate::types::NodeType;
use crate::types::PrimitiveType;
use crate::value_type::ValueType;
use vstd::prelude::*;

verus! {

/// A typed expression: a value or a call with its arguments.
#[derive(Debug)]
pub struct Node {
    pub value_type: ValueType,
    pub node_type: NodeType,
    /// The literal or the name of the variable; for a call, the name of the
    /// function.
    pub string_data: Option<String>,
    /// The parsed literal or the index of the variable.
    pub data: Option<NodeData>,
    /// For a call, the index of the function or script.
    pub index: Option<u16>,
    /// The arguments of a call.
    pub parameters: Option<Vec<Node>>,
    pub file: usize,
    pub line: usize,
    pub column: usize,
}

/// The value of a `Node`.
pub struct NodeModel {
    pub value_type: ValueType,
    pub node_type: NodeType,
    pub string_data: Option<Seq<char>>,
    pub data: Option<NodeDataModel>,
    pub index: Option<u16>,
    pub parameters: Option<Seq<NodeModel>>,
    pub file: usize,
    pub line: usize,
    pub column: usize,
}

/// The values of a list of nodes.
pub open spec fn nodes_view(s: Seq<Node>) -> Seq<NodeModel>
    decreases s,
{
    Seq::new(
        s.len(),
        |i: int|
            if 0 <= i < s.len() {
                s[i].view()
            } else {
                arbitrary()
            },
    )
}

impl View for Node {
    type V = NodeModel;

    open spec fn view(&self) -> NodeModel
        decreases self,
    {
        NodeModel {
            value_type: self.value_type,
            node_type: self.node_type,
            string_data: text_view(self.string_data),
            data: data_view(self.data),
            index: self.index,
            parameters: match self.parameters {
                Some(v) => Some(nodes_view(v@)),
                None => None,
            },
            file: self.file,
            line: self.line,
            column: self.column,
        }
    }
}

/// The node that stands in for an expression before it is analyzed.
pub open spec fn blank_node() -> NodeModel {
    NodeModel {
        value_type: ValueType::Unparsed,
        node_type: NodeType::Primitive(PrimitiveType::Static),
        string_data: None,
        data: None,
        index: None,
        parameters: None,
        file: 0,
        line: 0,
        column: 0,
    }
}

/// The arguments of a node; none for a value.
pub open spec fn arguments(n: NodeModel) -> Seq<NodeModel> {
    match n.parameters {
        Some(p) => p,
        None => Seq::empty(),
    }
}

impl Default for Node {
    fn default() -> (r: Node)
        ensures
            r@ == blank_node(),
    {
        Node {
            value_type: ValueType::Unparsed,
            node_type: NodeType::Primitive(PrimitiveType::Static),
            string_data: None,
            data: None,
            index: None,
            parameters: None,
            file: 0,
            line: 0,
            column: 0,
        }
    }
}

impl Node {
    /// A copy with the same value.
    pub fn duplicate(&self) -> (r: Node)
        ensures
            r@ == self@,
        decreases self,
    {
        let parameters = match &self.parameters {
            Some(v) => Some(duplicate_nodes(v)),
            None => None,
        };
        Node {
            value_type: self.value_type,
            node_type: self.node_type,
            string_data: duplicate_text(&self.string_data),
            data: duplicate_data(&self.data),
            index: self.index,
            parameters,
            file: self.file,
            line: self.line,
            column: self.column,
        }
    }
}

/// Copies of the nodes.
pub fn duplicate_nodes(v: &Vec<Node>) -> (r: Vec<Node>)
    ensures
        nodes_view(r@) == nodes_view(v@),
    decreases v,
{
    let mut out: Vec<Node> = Vec::new();
    let mut i: usize = 0;
    while i < v.len()
        invariant
            i <= v.len(),
            out.len() == i,
            forall|j: int| 0 <= j < i ==> out[j]@ == v[j]@,
        decreases v.len() - i,
    {
        out.push(v[i].duplicate());
        i += 1;
    }
    assert(nodes_view(out@) =~= nodes_view(v@));
    out
}

} // verus!
