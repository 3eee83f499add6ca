//! What analysis guarantees of a tree: every name in it is known. A call
//! names a function of the engine that the target has, or a script; a
//! variable names a parameter or a global; a script literal names a
//! script.

use crate::compile::analysis::analyze;
use crate::compile::analysis::analyze_arguments;
use crate::compile::analysis::analyze_call;
use crate::compile::analysis::argument_type;
use crate::compile::analysis::call_cost;
use crate::compile::analysis::cost;
use crate::compile::analysis::cost_all;
use crate::compile::analysis::decides_passthrough;
use crate::compile::analysis::desugar_cond;
use crate::compile::analysis::lemma_cost_all_bounds;
use crate::compile::analysis::lemma_desugar_cost;
use crate::compile::analysis::mark_set;
use crate::compile::analysis::passthrough_seed;
use crate::compile::analysis::read_literal;
use crate::compile::analysis::read_literals;
use crate::compile::analysis::result_type;
use crate::compile::analysis::Arguments;
use crate::compile::node::NodeModel;
use crate::compile::scope::script_position;
use crate::compile::scope::CallableFunction;
use crate::compile::scope::Scope;
use crate::compile::script::parameter_position;
use crate::definitions::engine_function_position;
use crate::text::lowercase;
use crate::token::TokenModel;
use crate::types::NodeType;
use crate::types::PrimitiveType;
use crate::value_type::ValueType;
use vstd::prelude::*;

verus! {

/// Whether a node is a literal that has not been read yet.
pub open spec fn is_unread(n: NodeModel) -> bool {
    &&& n.node_type == NodeType::Primitive(PrimitiveType::Static)
    &&& n.parameters is None
    &&& n.data is None
    &&& n.string_data is Some
}

/// Whether a node names something that its scope knows, and has the
/// fields that its kind has.
pub open spec fn is_known(n: NodeModel, scope: Scope) -> bool {
    match n.node_type {
        NodeType::FunctionCall(true) => {
            &&& n.string_data is Some
            &&& n.parameters is Some
            &&& n.index is None
            &&& engine_function_position(
                scope.functions,
                scope.target,
                n.string_data->0,
                scope.functions.len() as int,
            ) is Some
        },
        NodeType::FunctionCall(false) => {
            &&& n.string_data is Some
            &&& n.parameters is Some
            &&& n.index is None
            &&& script_position(scope.scripts, n.string_data->0, scope.scripts.len() as int) is Some
        },
        NodeType::Primitive(PrimitiveType::Local) => {
            &&& n.string_data is Some
            &&& n.parameters is None
            &&& n.data is None
            &&& parameter_position(n.string_data->0, scope.locals) is Some
        },
        NodeType::Primitive(PrimitiveType::Global) => {
            &&& n.string_data is Some
            &&& n.parameters is None
            &&& n.data is None
            &&& scope.global(n.string_data->0) is Some
        },
        NodeType::Primitive(PrimitiveType::Static) => {
            &&& n.parameters is None
            &&& n.value_type == ValueType::Script ==> {
                &&& n.string_data is Some
                &&& n.data is None
                &&& script_position(
                    scope.scripts,
                    n.string_data->0,
                    scope.scripts.len() as int,
                ) is Some
            }
        },
    }
}

/// Whether every node of a tree names something that its scope knows.
pub open spec fn is_sound(n: NodeModel, scope: Scope) -> bool
    decreases n,
{
    &&& is_known(n, scope)
    &&& n.parameters is Some ==> forall|i: int|
        0 <= i < n.parameters->0.len() ==> is_sound(#[trigger] n.parameters->0[i], scope)
}

/// What holds of the node of a token: a block gives a call and a word a
/// value; all but a literal that is yet to be read is sound; and a word
/// that names a global is no literal.
pub open spec fn fits(token: TokenModel, n: NodeModel, scope: Scope) -> bool {
    if token.children is Some {
        n.node_type is FunctionCall && is_sound(n, scope)
    } else {
        &&& n.node_type is Primitive
        &&& n.node_type == NodeType::Primitive(PrimitiveType::Static) ==> is_unread(n)
        &&& n.node_type != NodeType::Primitive(PrimitiveType::Static) ==> is_sound(n, scope)
        &&& scope.global(lowercase(token.string)) is Some ==> n.node_type != NodeType::Primitive(
            PrimitiveType::Static,
        )
    }
}

/// A script that a name calls has a position.
pub proof fn lemma_function_script(scope: Scope, name: Seq<char>)
    ensures
        scope.function(name) is Some && scope.function(name)->0 is Script ==> script_position(
            scope.scripts,
            name,
            scope.scripts.len() as int,
        ) is Some,
        scope.function(name) is Some && scope.function(name)->0 is Engine
            ==> engine_function_position(
            scope.functions,
            scope.target,
            name,
            scope.functions.len() as int,
        ) is Some,
{
}

/// Reading the literals among the arguments of a call leaves every
/// argument sound.
pub proof fn lemma_read_literals_sound(
    scope: Scope,
    f: CallableFunction,
    args: Seq<TokenModel>,
    nodes: Seq<NodeModel>,
    i: int,
    resolved: ValueType,
)
    requires
        0 <= i,
        nodes.len() == args.len(),
        forall|k: int| 0 <= k < i ==> is_sound(#[trigger] nodes[k], scope),
        forall|k: int| i <= k < nodes.len() ==> is_sound(#[trigger] nodes[k], scope) || is_unread(
            nodes[k],
        ),
    ensures
        match read_literals(scope, f, args, nodes, i, resolved) {
            Ok(r) => r.len() == nodes.len() && forall|k: int|
                0 <= k < r.len() ==> is_sound(#[trigger] r[k], scope),
            Err(_) => true,
        },
    decreases nodes.len() - i,
{
    if i < nodes.len() {
        if nodes[i].node_type == NodeType::Primitive(PrimitiveType::Static) {
            let text = if scope.uppercase_allowed(f, i) {
                args[i].string
            } else {
                lowercase(args[i].string)
            };
            let value_type = if nodes[i].value_type == ValueType::Passthrough {
                resolved
            } else {
                nodes[i].value_type
            };
            match read_literal(scope, args[i], text, value_type) {
                Ok(lit) => {
                    let read = NodeModel {
                        value_type,
                        data: lit.data,
                        string_data: if lit.keeps_text {
                            Some(text)
                        } else {
                            None
                        },
                        ..nodes[i]
                    };
                    lemma_function_script(scope, text);
                    assert(nodes[i].parameters is None);
                    assert(is_sound(read, scope));
                    let next = nodes.update(i, read);
                    assert forall|k: int| 0 <= k < i + 1 implies is_sound(
                        #[trigger] next[k],
                        scope,
                    ) by {
                        if k < i {
                            assert(next[k] == nodes[k]);
                        }
                    }
                    assert forall|k: int| i + 1 <= k < next.len() implies is_sound(
                        #[trigger] next[k],
                        scope,
                    ) || is_unread(next[k]) by {
                        assert(next[k] == nodes[k]);
                    }
                    lemma_read_literals_sound(scope, f, args, next, i + 1, resolved);
                },
                Err(_) => {},
            }
        } else {
            assert(is_sound(nodes[i], scope));
            assert forall|k: int| 0 <= k < i + 1 implies is_sound(#[trigger] nodes[k], scope) by {}
            lemma_read_literals_sound(scope, f, args, nodes, i + 1, resolved);
        }
    }
}

/// The node of a token fits the token.
pub proof fn lemma_analyze_fits(token: TokenModel, expected: ValueType, scope: Scope)
    ensures
        analyze(token, expected, scope) is Ok ==> fits(
            token,
            analyze(token, expected, scope)->Ok_0,
            scope,
        ),
    decreases cost(token), 0nat,
{
    match token.children {
        None => {},
        Some(children) => {
            if children.len() > 0 {
                assert(children.drop_first() =~= children.subrange(1, children.len() as int));
                lemma_analyze_call_sound(
                    lowercase(children[0].string),
                    token,
                    expected,
                    children.subrange(1, children.len() as int),
                    scope,
                );
            }
        },
    }
}

/// The node of a call is a call, and it is sound.
#[verifier::rlimit(50)]
pub proof fn lemma_analyze_call_sound(
    name: Seq<char>,
    call_token: TokenModel,
    expected: ValueType,
    args: Seq<TokenModel>,
    scope: Scope,
)
    ensures
        analyze_call(name, call_token, expected, args, scope) is Ok ==> ({
            let n = analyze_call(name, call_token, expected, args, scope)->Ok_0;
            n.node_type is FunctionCall && is_sound(n, scope)
        }),
    decreases call_cost(name, args), 0nat,
{
    if name == "cond"@ {
        if args.len() > 0 {
            match desugar_cond(args, 0) {
                Ok(t) => {
                    lemma_desugar_cost(args, 0);
                    assert(args.subrange(0, args.len() as int) =~= args);
                    lemma_desugar_is_block(args, 0);
                    lemma_analyze_fits(t, expected, scope);
                },
                Err(_) => {},
            }
        }
    } else {
        match scope.function(name) {
            Some(f) => {
                let declared = scope.return_type(f);
                let final_type = result_type(declared, expected);
                match passthrough_seed(scope, name, call_token, args, declared, final_type) {
                    Ok(seed) => {
                        let start = Arguments { nodes: Seq::empty(), passthrough: seed };
                        lemma_analyze_arguments_fit(scope, f, name, args, 0, start);
                        match analyze_arguments(scope, f, name, args, 0, start) {
                            Ok(arguments) => {
                                let marked = mark_set(name, arguments.nodes);
                                assert forall|k: int| 0 <= k < marked.len() implies is_sound(
                                    #[trigger] marked[k],
                                    scope,
                                ) || is_unread(marked[k]) by {
                                    assert(fits(args[k], arguments.nodes[k], scope));
                                    if k == 0 && name == "set"@ {
                                        assert(args[0].children is None);
                                    }
                                }
                                let resolved = match arguments.passthrough {
                                    Some(t) => t,
                                    None => ValueType::Real,
                                };
                                lemma_read_literals_sound(scope, f, args, marked, 0, resolved);
                                lemma_function_script(scope, name);
                            },
                            Err(_) => {},
                        }
                    },
                    Err(_) => {},
                }
            },
            None => {},
        }
    }
}

/// What a `cond` is rewritten into is a block.
pub proof fn lemma_desugar_is_block(arms: Seq<TokenModel>, i: int)
    ensures
        desugar_cond(arms, i) is Ok ==> desugar_cond(arms, i)->Ok_0.children is Some,
    decreases arms.len() - i,
{
    if 0 <= i < arms.len() {
        lemma_desugar_is_block(arms, i + 1);
    }
}

/// The nodes of the arguments of a call fit the arguments, one by one.
pub proof fn lemma_analyze_arguments_fit(
    scope: Scope,
    f: CallableFunction,
    name: Seq<char>,
    args: Seq<TokenModel>,
    i: int,
    so_far: Arguments,
)
    requires
        0 <= i <= args.len(),
        so_far.nodes.len() == i,
        forall|k: int| 0 <= k < i ==> fits(args[k], #[trigger] so_far.nodes[k], scope),
    ensures
        match analyze_arguments(scope, f, name, args, i, so_far) {
            Ok(r) => r.nodes.len() == args.len() && forall|k: int|
                0 <= k < args.len() ==> fits(args[k], #[trigger] r.nodes[k], scope),
            Err(_) => true,
        },
    decreases 1 + cost_all(args), args.len() - i,
{
    if i < args.len() {
        match scope.expected_type(f, i) {
            Some(declared) => {
                let is_last = i + 1 == args.len();
                let last_only = scope.passthrough_last(f);
                let expected = argument_type(declared, last_only, is_last, so_far.passthrough);
                lemma_cost_all_bounds(args, i);
                lemma_analyze_fits(args[i], expected, scope);
                match analyze(args[i], expected, scope) {
                    Ok(node) => {
                        let next = Arguments {
                            nodes: so_far.nodes.push(node),
                            passthrough: if decides_passthrough(
                                declared,
                                last_only,
                                is_last,
                                so_far.passthrough,
                            ) && node.value_type != ValueType::Passthrough {
                                Some(node.value_type)
                            } else {
                                so_far.passthrough
                            },
                        };
                        assert forall|k: int| 0 <= k < i + 1 implies fits(
                            args[k],
                            #[trigger] next.nodes[k],
                            scope,
                        ) by {
                            if k < i {
                                assert(next.nodes[k] == so_far.nodes[k]);
                            }
                        }
                        lemma_analyze_arguments_fit(scope, f, name, args, i + 1, next);
                    },
                    Err(_) => {},
                }
            },
            None => {},
        }
    }
}

} // verus!
