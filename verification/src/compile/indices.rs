//! Indices. Once the scripts and globals of a file are settled, every
//! reference in a tree is given the index of what it names: a call the
//! index of its function or script, a script literal the index of its
//! script, a parameter its position, and a global of the file its position.
//! A global of the engine is left to the engine.
//!
//! Reading a global in the initializer of itself or of a global that is
//! defined later is reported as a warning.

use crate::compile::node::nodes_view;
use crate::compile::node::Node;
use crate::compile::node::NodeModel;
use crate::compile::scope::global_position;
use crate::compile::scope::script_position;
use crate::compile::scope::CallableFunction;
use crate::compile::scope::CallableGlobal;
use crate::compile::scope::Environment;
use crate::compile::scope::Scope;
use crate::compile::script::parameter_index;
use crate::compile::script::parameter_position;
use crate::definitions::engine_function_position;
use crate::error::diagnostics_view;
use crate::error::Diagnostic;
use crate::error::DiagnosticModel;
use crate::error::ErrorKind;
use crate::text::concat3;
use crate::types::data_view;
use crate::types::duplicate_data;
use crate::types::duplicate_text;
use crate::types::NodeData;
use crate::types::NodeDataModel;
use crate::types::NodeType;
use crate::types::PrimitiveType;
use crate::value_type::ValueType;
use vstd::prelude::*;

verus! {

/// The position of the script that a name stands for.
pub open spec fn script_index(scope: Scope, name: Seq<char>) -> Option<int> {
    script_position(scope.scripts, name, scope.scripts.len() as int)
}

/// The position of the global of the file that a name stands for.
pub open spec fn global_index(scope: Scope, name: Seq<char>) -> Option<int> {
    global_position(scope.globals, name, scope.globals.len() as int)
}

/// The index that the target gives the engine function of a name.
pub open spec fn engine_index(scope: Scope, name: Seq<char>) -> Option<u16> {
    match engine_function_position(
        scope.functions,
        scope.target,
        name,
        scope.functions.len() as int,
    ) {
        Some(p) => scope.functions[p].availability.index_on(scope.target),
        None => None,
    }
}

/// The data of a value node once indices are given out.
pub open spec fn indexed_data(n: NodeModel, scope: Scope) -> Option<NodeDataModel> {
    match (n.node_type, n.string_data) {
        (NodeType::Primitive(PrimitiveType::Static), Some(name)) => if n.value_type
            == ValueType::Script && script_index(scope, name) is Some && script_index(
            scope,
            name,
        )->0 <= 32767 {
            Some(NodeDataModel::Short(script_index(scope, name)->0 as i16))
        } else {
            n.data
        },
        (NodeType::Primitive(PrimitiveType::Local), Some(name)) => match parameter_position(
            name,
            scope.locals,
        ) {
            Some(k) => if k <= 2147483647 {
                Some(NodeDataModel::Long(k as i32))
            } else {
                n.data
            },
            None => n.data,
        },
        (NodeType::Primitive(PrimitiveType::Global), Some(name)) => match global_index(
            scope,
            name,
        ) {
            Some(k) => if k <= 2147483647 {
                Some(NodeDataModel::Long(k as i32))
            } else {
                n.data
            },
            None => n.data,
        },
        _ => n.data,
    }
}

/// The index of a call node once indices are given out.
pub open spec fn indexed_index(n: NodeModel, scope: Scope) -> Option<u16> {
    match (n.node_type, n.string_data) {
        (NodeType::FunctionCall(true), Some(name)) => match engine_index(scope, name) {
            Some(i) => Some(i),
            None => n.index,
        },
        (NodeType::FunctionCall(false), Some(name)) => match script_index(scope, name) {
            Some(k) => if k <= 32767 {
                Some(k as u16)
            } else {
                n.index
            },
            None => n.index,
        },
        _ => n.index,
    }
}

/// A tree with the indices of what its nodes name.
pub open spec fn indexed(n: NodeModel, scope: Scope) -> NodeModel
    decreases n,
{
    NodeModel {
        data: indexed_data(n, scope),
        index: indexed_index(n, scope),
        parameters: match n.parameters {
            Some(p) => if n.node_type is FunctionCall {
                Some(indexed_all(p, scope))
            } else {
                Some(p)
            },
            None => None,
        },
        ..n
    }
}

/// Each tree of a list with the indices of what its nodes name.
pub open spec fn indexed_all(s: Seq<NodeModel>, scope: Scope) -> Seq<NodeModel>
    decreases s,
{
    Seq::new(
        s.len(),
        |i: int|
            if 0 <= i < s.len() {
                indexed(s[i], scope)
            } else {
                arbitrary()
            },
    )
}

fn find_script(env: &Environment, name: &str) -> (r: Option<usize>)
    ensures
        match r {
            Some(i) => script_index(env@, name@) == Some(i as int) && i < env@.scripts.len(),
            None => script_index(env@, name@) is None,
        },
{
    match env.find_function(name) {
        Some(CallableFunction::Script(i)) => Some(i),
        _ => None,
    }
}

fn find_user_global(env: &Environment, name: &str) -> (r: Option<usize>)
    ensures
        match r {
            Some(i) => global_index(env@, name@) == Some(i as int) && i < env@.globals.len(),
            None => global_index(env@, name@) is None,
        },
{
    match env.find_global(name) {
        Some(CallableGlobal::User(i)) => Some(i),
        _ => None,
    }
}

fn find_engine_index(env: &Environment, name: &str) -> (r: Option<u16>)
    ensures
        r == engine_index(env@, name@),
{
    match env.definitions.find_function(env.target, name) {
        Some(p) => env.definitions.functions[p].availability.index_for_target(env.target),
        None => None,
    }
}

fn data_for(node: &Node, env: &Environment) -> (r: Option<NodeData>)
    ensures
        data_view(r) == indexed_data(node@, env@),
{
    match (&node.node_type, &node.string_data) {
        (NodeType::Primitive(PrimitiveType::Static), Some(name)) => {
            if node.value_type == ValueType::Script {
                match find_script(env, name.as_str()) {
                    Some(i) => if i <= 32767 {
                        Some(NodeData::Short(i as i16))
                    } else {
                        duplicate_data(&node.data)
                    },
                    None => duplicate_data(&node.data),
                }
            } else {
                duplicate_data(&node.data)
            }
        },
        (NodeType::Primitive(PrimitiveType::Local), Some(name)) => {
            match parameter_index(name.as_str(), env.locals) {
                Some(k) => if k <= 2147483647 {
                    Some(NodeData::Long(k as i32))
                } else {
                    duplicate_data(&node.data)
                },
                None => duplicate_data(&node.data),
            }
        },
        (NodeType::Primitive(PrimitiveType::Global), Some(name)) => {
            match find_user_global(env, name.as_str()) {
                Some(k) => if k <= 2147483647 {
                    Some(NodeData::Long(k as i32))
                } else {
                    duplicate_data(&node.data)
                },
                None => duplicate_data(&node.data),
            }
        },
        _ => duplicate_data(&node.data),
    }
}

fn index_for(node: &Node, env: &Environment) -> (r: Option<u16>)
    ensures
        r == indexed_index(node@, env@),
{
    match (&node.node_type, &node.string_data) {
        (NodeType::FunctionCall(true), Some(name)) => {
            match find_engine_index(env, name.as_str()) {
                Some(i) => Some(i),
                None => node.index,
            }
        },
        (NodeType::FunctionCall(false), Some(name)) => {
            match find_script(env, name.as_str()) {
                Some(k) => if k <= 32767 {
                    Some(k as u16)
                } else {
                    node.index
                },
                None => node.index,
            }
        },
        _ => node.index,
    }
}

/// A tree with the indices of what its nodes name.
pub fn find_global_script_indices_for_node(node: &Node, env: &Environment) -> (r: Node)
    ensures
        r@ == indexed(node@, env@),
    decreases node,
{
    let parameters = match &node.parameters {
        Some(p) => if node.node_type.is_function_call() {
            Some(find_indices_for_nodes(p, env))
        } else {
            Some(crate::compile::node::duplicate_nodes(p))
        },
        None => None,
    };
    Node {
        value_type: node.value_type,
        node_type: node.node_type,
        string_data: duplicate_text(&node.string_data),
        data: data_for(node, env),
        index: index_for(node, env),
        parameters,
        file: node.file,
        line: node.line,
        column: node.column,
    }
}

/// Each tree of a list with the indices of what its nodes name.
pub fn find_indices_for_nodes(nodes: &Vec<Node>, env: &Environment) -> (r: Vec<Node>)
    ensures
        nodes_view(r@) == indexed_all(nodes_view(nodes@), env@),
    decreases nodes,
{
    let mut out: Vec<Node> = Vec::new();
    let mut i: usize = 0;
    while i < nodes.len()
        invariant
            i <= nodes.len(),
            out.len() == i,
            forall|j: int| 0 <= j < i ==> out[j]@ == indexed(nodes[j]@, env@),
        decreases nodes.len() - i,
    {
        out.push(find_global_script_indices_for_node(&nodes[i], env));
        i += 1;
    }
    assert(nodes_view(out@) =~= indexed_all(nodes_view(nodes@), env@));
    out
}

/// The message for a global that is read before it is set.
pub open spec fn uninitialized_message(name: Seq<char>) -> Seq<char> {
    "use of uninitialized global '"@ + name + "'"@
}

/// The warnings for a tree that is the initializer of the global at
/// position `from`: one for each node, parents before children and
/// children in order, that reads a global of the file at that position or
/// a later one.
pub open spec fn uninitialized(n: NodeModel, scope: Scope, from: int) -> Seq<DiagnosticModel>
    decreases n, 0nat,
{
    match n.node_type {
        NodeType::Primitive(PrimitiveType::Global) => if n.string_data is Some && global_index(
            scope,
            n.string_data->0,
        ) is Some && global_index(scope, n.string_data->0)->0 >= from {
            seq![
                DiagnosticModel {
                    kind: ErrorKind::UninitializedGlobal,
                    message: uninitialized_message(n.string_data->0),
                    file: n.file,
                    line: n.line,
                    column: n.column,
                },
            ]
        } else {
            Seq::empty()
        },
        NodeType::FunctionCall(_) => match n.parameters {
            Some(p) => uninitialized_among(p, scope, from, p.len() as int),
            None => Seq::empty(),
        },
        _ => Seq::empty(),
    }
}

/// The warnings for the first `end` trees of a list, in order.
pub open spec fn uninitialized_among(s: Seq<NodeModel>, scope: Scope, from: int, end: int) -> Seq<
    DiagnosticModel,
>
    decreases s, end,
{
    if end <= 0 || end > s.len() {
        Seq::empty()
    } else {
        uninitialized_among(s, scope, from, end - 1) + uninitialized(s[end - 1], scope, from)
    }
}

/// Adds the warnings for the initializer of the global at position `from`.
#[verifier::loop_isolation(false)]
pub fn find_uninitialized_globals(
    node: &Node,
    env: &Environment,
    from: usize,
    warnings: &mut Vec<Diagnostic>,
)
    ensures
        diagnostics_view(final(warnings)@) == diagnostics_view(old(warnings)@) + uninitialized(
            node@,
            env@,
            from as int,
        ),
    decreases node, 0nat,
{
    let ghost before = diagnostics_view(warnings@);
    match node.node_type {
        NodeType::Primitive(PrimitiveType::Global) => {
            match &node.string_data {
                Some(name) => {
                    match find_user_global(env, name.as_str()) {
                        Some(k) => {
                            if k >= from {
                                let message = concat3(
                                    "use of uninitialized global '",
                                    name.as_str(),
                                    "'",
                                );
                                let warning = Diagnostic {
                                    kind: ErrorKind::UninitializedGlobal,
                                    message,
                                    file: node.file,
                                    line: node.line,
                                    column: node.column,
                                };
                                warnings.push(warning);
                                assert(diagnostics_view(warnings@) =~= before + seq![warning@]);
                                return ;
                            }
                        },
                        None => {},
                    }
                },
                None => {},
            }
            assert(diagnostics_view(warnings@) =~= before + Seq::<DiagnosticModel>::empty());
        },
        NodeType::FunctionCall(_) => {
            match &node.parameters {
                Some(p) => {
                    let ghost all = nodes_view(p@);
                    let mut i: usize = 0;
                    assert(diagnostics_view(warnings@) =~= before + Seq::<
                        DiagnosticModel,
                    >::empty());
                    while i < p.len()
                        invariant
                            i <= p@.len(),
                            all == nodes_view(p@),
                            node.parameters == Some(*p),
                            diagnostics_view(warnings@) == before + uninitialized_among(
                                all,
                                env@,
                                from as int,
                                i as int,
                            ),
                        decreases p@.len() - i,
                    {
                        assert(all[i as int] == p@[i as int]@);
                        let ghost so_far = diagnostics_view(warnings@);
                        find_uninitialized_globals(&p[i], env, from, warnings);
                        assert(diagnostics_view(warnings@) =~= before + uninitialized_among(
                            all,
                            env@,
                            from as int,
                            i + 1,
                        ));
                        i += 1;
                    }
                },
                None => {
                    assert(diagnostics_view(warnings@) =~= before + Seq::<
                        DiagnosticModel,
                    >::empty());
                },
            }
        },
        _ => {
            assert(diagnostics_view(warnings@) =~= before + Seq::<DiagnosticModel>::empty());
        },
    }
}

} // verus!
