//! The node array can be read back. From the position of a call, the data
//! of the call node leads to the name node, and the chain that begins at
//! the name node visits the first node of each argument, in order, and
//! ends at the last. What is read back is the tree that was emitted.

use crate::compile::emit::call_node;
use crate::compile::emit::emitted;
use crate::compile::emit::emitted_arguments;
use crate::compile::emit::name_node;
use crate::compile::emit::value_node;
use crate::compile::emit::with_next;
use crate::compile::node::arguments;
use crate::compile::node::blank_node;
use crate::compile::node::NodeModel;
use crate::compile::types::CompiledNodeModel;
use crate::compile::types::EncodedTextModel;
use crate::types::CompileEncoding;
use crate::types::NodeDataModel;
use crate::types::NodeType;
use vstd::prelude::*;

verus! {

/// A tree as the array holds it: a call has no data of its own, and a
/// value has no arguments.
pub open spec fn plain(n: NodeModel) -> NodeModel
    decreases n,
{
    match n.node_type {
        NodeType::Primitive(_) => NodeModel { parameters: None, ..n },
        NodeType::FunctionCall(_) => NodeModel {
            data: None,
            parameters: Some(
                match n.parameters {
                    Some(p) => plain_all(p),
                    None => Seq::empty(),
                },
            ),
            ..n
        },
    }
}

/// Each tree of a list as the array holds it.
pub open spec fn plain_all(s: Seq<NodeModel>) -> Seq<NodeModel>
    decreases s,
{
    Seq::new(
        s.len(),
        |i: int|
            if 0 <= i < s.len() {
                plain(s[i])
            } else {
                arbitrary()
            },
    )
}

/// The text of an optional encoded text.
pub open spec fn text_of(s: Option<EncodedTextModel>) -> Option<Seq<char>> {
    match s {
        Some(t) => Some(t.text),
        None => None,
    }
}

/// The tree whose first node stands at a position of the array.
pub open spec fn read_back(nodes: Seq<CompiledNodeModel>, pos: int) -> NodeModel
    decreases nodes.len() - pos,
{
    if pos < 0 || pos >= nodes.len() {
        blank_node()
    } else {
        let c = nodes[pos];
        match c.node_type {
            NodeType::Primitive(_) => NodeModel {
                value_type: c.value_type,
                node_type: c.node_type,
                string_data: text_of(c.string_data),
                data: c.data,
                index: c.index,
                parameters: None,
                file: c.file,
                line: c.line,
                column: c.column,
            },
            NodeType::FunctionCall(_) => match c.data {
                Some(NodeDataModel::NodeOffset(o)) => if pos < o < nodes.len() {
                    NodeModel {
                        value_type: c.value_type,
                        node_type: c.node_type,
                        string_data: text_of(nodes[o as int].string_data),
                        data: None,
                        index: c.index,
                        parameters: Some(read_chain(nodes, nodes[o as int].next_node, o as int)),
                        file: c.file,
                        line: c.line,
                        column: c.column,
                    }
                } else {
                    blank_node()
                },
                _ => blank_node(),
            },
        }
    }
}

/// The trees that a chain of next-node positions visits. Every position
/// of a chain lies after the one before it.
pub open spec fn read_chain(nodes: Seq<CompiledNodeModel>, next: Option<usize>, after: int) -> Seq<
    NodeModel,
>
    decreases nodes.len() - after,
{
    match next {
        None => Seq::empty(),
        Some(p) => if after < p < nodes.len() {
            seq![read_back(nodes, p as int)] + read_chain(nodes, nodes[p as int].next_node, p as int)
        } else {
            Seq::empty()
        },
    }
}

/// Whether the array holds a block at a position.
pub open spec fn holds(
    nodes: Seq<CompiledNodeModel>,
    base: int,
    block: Seq<CompiledNodeModel>,
) -> bool {
    &&& 0 <= base
    &&& base + block.len() <= nodes.len()
    &&& forall|k: int| 0 <= k < block.len() ==> nodes[base + k] == #[trigger] block[k]
}

/// Whether the array holds a block at a position, but for where the first
/// node of the block points.
pub open spec fn holds_but_next(
    nodes: Seq<CompiledNodeModel>,
    base: int,
    block: Seq<CompiledNodeModel>,
) -> bool {
    &&& 0 <= base
    &&& block.len() > 0
    &&& base + block.len() <= nodes.len()
    &&& forall|k: int| 1 <= k < block.len() ==> nodes[base + k] == #[trigger] block[k]
    &&& nodes[base] == (CompiledNodeModel { next_node: nodes[base].next_node, ..block[0] })
}

/// The first node of what a tree becomes points nowhere.
pub proof fn lemma_emitted_root(n: NodeModel, base: int, encoding: CompileEncoding)
    ensures
        emitted(n, base, encoding).len() >= 1,
        emitted(n, base, encoding)[0].next_node is None,
        n.node_type is FunctionCall ==> emitted(n, base, encoding).len() >= 2,
{
}

/// What is read back from a block that the array holds is the tree that
/// the block was emitted from.
pub proof fn lemma_read_back(
    nodes: Seq<CompiledNodeModel>,
    n: NodeModel,
    base: int,
    encoding: CompileEncoding,
)
    requires
        nodes.len() <= usize::MAX,
        holds_but_next(nodes, base, emitted(n, base, encoding)),
    ensures
        read_back(nodes, base) == plain(n),
    decreases n, 0nat,
{
    let block = emitted(n, base, encoding);
    match n.node_type {
        NodeType::Primitive(_) => {
            assert(block[0] == value_node(n, encoding));
        },
        NodeType::FunctionCall(_) => {
            let args = arguments(n);
            let first: Option<usize> = if args.len() > 0 {
                Some((base + 2) as usize)
            } else {
                None
            };
            let head = seq![call_node(n, (base + 1) as usize), name_node(n, first, encoding)];
            let tail = match n.parameters {
                Some(p) => emitted_arguments(p, 0, base + 2, encoding),
                None => Seq::empty(),
            };
            assert(block == head + tail);
            assert(block[0] == call_node(n, (base + 1) as usize));
            assert(block[1] == name_node(n, first, encoding));
            assert(nodes[base + 1] == block[1]);
            assert forall|k: int| 0 <= k < tail.len() implies nodes[base + 2 + k]
                == #[trigger] tail[k] by {
                assert(block[k + 2] == tail[k]);
            }
            match n.parameters {
                Some(p) => {
                    assert(holds(nodes, base + 2, tail));
                    lemma_read_chain(nodes, p, 0, base + 2, base + 1, encoding);
                    assert(p.subrange(0, p.len() as int) =~= p);
                    if p.len() == 0 {
                        assert(plain_all(p) =~= Seq::<NodeModel>::empty());
                    }
                },
                None => {
                    assert(read_chain(nodes, None, base + 1) =~= Seq::<NodeModel>::empty());
                },
            }
        },
    }
}

/// What a chain visits in a run of argument blocks that the array holds
/// is the arguments, in order.
pub proof fn lemma_read_chain(
    nodes: Seq<CompiledNodeModel>,
    s: Seq<NodeModel>,
    i: int,
    base: int,
    after: int,
    encoding: CompileEncoding,
)
    requires
        nodes.len() <= usize::MAX,
        0 <= i <= s.len(),
        0 <= after < base,
        holds(nodes, base, emitted_arguments(s, i, base, encoding)),
    ensures
        read_chain(
            nodes,
            if i < s.len() {
                Some(base as usize)
            } else {
                None
            },
            after,
        ) == plain_all(s.subrange(i, s.len() as int)),
    decreases s, s.len() - i,
{
    let rest = s.subrange(i, s.len() as int);
    if i >= s.len() {
        assert(plain_all(rest) =~= Seq::<NodeModel>::empty());
    } else {
        let all = emitted_arguments(s, i, base, encoding);
        let own = emitted(s[i], base, encoding);
        lemma_emitted_root(s[i], base, encoding);
        let linked = if i + 1 < s.len() {
            with_next(own, Some((base + own.len()) as usize))
        } else {
            own
        };
        let more = emitted_arguments(s, i + 1, base + own.len(), encoding);
        assert(all == linked + more);
        assert(linked.len() == own.len());
        assert forall|k: int| 0 <= k < linked.len() implies nodes[base + k]
            == #[trigger] linked[k] by {
            assert(all[k] == linked[k]);
        }
        assert forall|k: int| 0 <= k < more.len() implies nodes[base + own.len() + k]
            == #[trigger] more[k] by {
            assert(all[own.len() + k] == more[k]);
        }
        assert(holds_but_next(nodes, base, own)) by {
            assert forall|k: int| 1 <= k < own.len() implies nodes[base + k]
                == #[trigger] own[k] by {
                assert(linked[k] == own[k]);
            }
            assert(nodes[base] == linked[0]);
        }
        lemma_read_back(nodes, s[i], base, encoding);
        assert(holds(nodes, base + own.len(), more));
        assert(nodes[base].next_node == linked[0].next_node);
        lemma_read_chain(nodes, s, i + 1, base + own.len(), base, encoding);
        let later = s.subrange(i + 1, s.len() as int);
        assert(plain_all(rest) =~= seq![plain(s[i])] + plain_all(later)) by {
            assert(rest[0] == s[i]);
            assert forall|k: int| 1 <= k < rest.len() implies plain_all(rest)[k] == plain_all(
                later,
            )[k - 1] by {
                assert(rest[k] == later[k - 1]);
            }
        }
    }
}

} // verus!
