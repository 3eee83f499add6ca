//! Analysis reads of its scope only what the names in it stand for: which
//! function a name calls and what that function takes and returns, which
//! global a name reads and of what type it is, and which parameter a name
//! is. Scopes that agree on these give every token the same node.

use crate::compile::analysis::analyze;
use crate::compile::analysis::analyze_arguments;
use crate::compile::analysis::analyze_call;
use crate::compile::analysis::argument_type;
use crate::compile::analysis::call_cost;
use crate::compile::analysis::cost;
use crate::compile::analysis::cost_all;
use crate::compile::analysis::decides_passthrough;
use crate::compile::analysis::desugar_cond;
use crate::compile::analysis::lemma_cost_all_bounds;
use crate::compile::analysis::lemma_desugar_cost;
use crate::compile::analysis::mark_set;
use crate::compile::analysis::passthrough_seed;
use crate::compile::analysis::read_literal;
use crate::compile::analysis::read_literals;
use crate::compile::analysis::result_type;
use crate::compile::analysis::Arguments;
use crate::compile::node::NodeModel;
use crate::compile::scope::CallableFunction;
use crate::compile::scope::CallableGlobal;
use crate::compile::scope::Scope;
use crate::compile::script::parameter_position;
use crate::text::lowercase;
use crate::token::TokenModel;
use crate::types::NodeType;
use crate::types::PrimitiveType;
use crate::value_type::ValueType;
use vstd::prelude::*;

verus! {

/// Whether two scopes give every name the same meaning.
pub open spec fn same_meaning(a: Scope, b: Scope) -> bool {
    &&& a.target == b.target
    &&& a.functions == b.functions
    &&& a.engine_globals == b.engine_globals
    &&& forall|name: Seq<char>| #[trigger] a.function(name) == b.function(name)
    &&& forall|f: CallableFunction|
        a.has(f) ==> #[trigger] a.return_type(f) == b.return_type(f)
    &&& forall|f: CallableFunction|
        a.has(f) ==> #[trigger] a.minimum_count(f) == b.minimum_count(f)
    &&& forall|f: CallableFunction| a.has(f) ==> #[trigger] a.total_count(f) == b.total_count(f)
    &&& forall|f: CallableFunction, i: int|
        a.has(f) ==> #[trigger] a.expected_type(f, i) == b.expected_type(f, i)
    &&& forall|name: Seq<char>| #[trigger] a.global(name) == b.global(name)
    &&& forall|g: CallableGlobal|
        a.has_global(g) ==> #[trigger] a.global_type(g) == b.global_type(g)
    &&& forall|name: Seq<char>| #[trigger]
        parameter_position(name, a.locals) == parameter_position(name, b.locals)
    &&& forall|n: int|
        0 <= n < a.locals.len() ==> (#[trigger] a.locals[n]).value_type == b.locals[n].value_type
    &&& a.locals.len() == b.locals.len()
}

/// What a name reads lies in its list.
pub proof fn lemma_global_known(scope: Scope, name: Seq<char>)
    ensures
        scope.global(name) is Some ==> scope.has_global(scope.global(name)->0),
{
    crate::laws::references::lemma_global_position(
        scope.globals,
        name,
        scope.globals.len() as int,
    );
    lemma_engine_global_position(
        scope.engine_globals,
        scope.target,
        name,
        scope.engine_globals.len() as int,
    );
}

/// The global of the engine that a name stands for lies in the list.
pub proof fn lemma_engine_global_position(
    globals: Seq<crate::definitions::EngineGlobal>,
    target: crate::types::CompileTarget,
    name: Seq<char>,
    end: int,
)
    requires
        0 <= end <= globals.len(),
    ensures
        match crate::definitions::engine_global_position(globals, target, name, end) {
            Some(p) => 0 <= p < end,
            None => true,
        },
    decreases end,
{
    if end > 0 && !(globals[end - 1].name@ == name && globals[end - 1].availability.index_on(
        target,
    ) is Some) {
        lemma_engine_global_position(globals, target, name, end - 1);
    }
}

/// Reading a literal gives the same in scopes of the same meaning.
pub proof fn lemma_read_literal_rescoped(
    a: Scope,
    b: Scope,
    token: TokenModel,
    text: Seq<char>,
    value_type: ValueType,
)
    requires
        same_meaning(a, b),
    ensures
        read_literal(a, token, text, value_type) == read_literal(b, token, text, value_type),
{
    assert(a.function(text) == b.function(text));
}

/// Reading the literals among the arguments of a call gives the same in
/// scopes of the same meaning.
pub proof fn lemma_read_literals_rescoped(
    a: Scope,
    b: Scope,
    f: CallableFunction,
    args: Seq<TokenModel>,
    nodes: Seq<NodeModel>,
    i: int,
    resolved: ValueType,
)
    requires
        same_meaning(a, b),
        0 <= i,
    ensures
        read_literals(a, f, args, nodes, i, resolved) == read_literals(
            b,
            f,
            args,
            nodes,
            i,
            resolved,
        ),
    decreases nodes.len() - i,
{
    if i < nodes.len() && i < args.len() {
        assert(a.uppercase_allowed(f, i) == b.uppercase_allowed(f, i));
        if nodes[i].node_type == NodeType::Primitive(PrimitiveType::Static) {
            let text = if a.uppercase_allowed(f, i) {
                args[i].string
            } else {
                lowercase(args[i].string)
            };
            let value_type = if nodes[i].value_type == ValueType::Passthrough {
                resolved
            } else {
                nodes[i].value_type
            };
            lemma_read_literal_rescoped(a, b, args[i], text, value_type);
            match read_literal(a, args[i], text, value_type) {
                Ok(lit) => {
                    lemma_read_literals_rescoped(
                        a,
                        b,
                        f,
                        args,
                        nodes.update(
                            i,
                            NodeModel {
                                value_type,
                                data: lit.data,
                                string_data: if lit.keeps_text {
                                    Some(text)
                                } else {
                                    None
                                },
                                ..nodes[i]
                            },
                        ),
                        i + 1,
                        resolved,
                    );
                },
                Err(_) => {},
            }
        } else {
            lemma_read_literals_rescoped(a, b, f, args, nodes, i + 1, resolved);
        }
    }
}

/// A token has the same node in scopes of the same meaning.
pub proof fn lemma_analyze_rescoped(token: TokenModel, expected: ValueType, a: Scope, b: Scope)
    requires
        same_meaning(a, b),
    ensures
        analyze(token, expected, a) == analyze(token, expected, b),
    decreases cost(token), 0nat,
{
    let name = lowercase(token.string);
    match token.children {
        None => {
            assert(parameter_position(name, a.locals) == parameter_position(name, b.locals));
            assert(a.global(name) == b.global(name));
            match parameter_position(name, a.locals) {
                Some(n) => {
                    crate::compile::script::lemma_parameter_position(name, a.locals, 0);
                    assert(a.locals[n].value_type == b.locals[n].value_type);
                },
                None => {
                    lemma_global_known(a, name);
                    match a.global(name) {
                        Some(g) => {
                            assert(a.global_type(g) == b.global_type(g));
                        },
                        None => {},
                    }
                },
            }
        },
        Some(children) => {
            if children.len() > 0 {
                assert(children.drop_first() =~= children.subrange(1, children.len() as int));
                lemma_analyze_call_rescoped(
                    lowercase(children[0].string),
                    token,
                    expected,
                    children.subrange(1, children.len() as int),
                    a,
                    b,
                );
            }
        },
    }
}

/// A call has the same node in scopes of the same meaning.
#[verifier::rlimit(50)]
pub proof fn lemma_analyze_call_rescoped(
    name: Seq<char>,
    call_token: TokenModel,
    expected: ValueType,
    args: Seq<TokenModel>,
    a: Scope,
    b: Scope,
)
    requires
        same_meaning(a, b),
    ensures
        analyze_call(name, call_token, expected, args, a) == analyze_call(
            name,
            call_token,
            expected,
            args,
            b,
        ),
    decreases call_cost(name, args), 0nat,
{
    if name == "cond"@ {
        if args.len() > 0 {
            match desugar_cond(args, 0) {
                Ok(t) => {
                    lemma_desugar_cost(args, 0);
                    assert(args.subrange(0, args.len() as int) =~= args);
                    lemma_analyze_rescoped(t, expected, a, b);
                },
                Err(_) => {},
            }
        }
    } else {
        assert(a.function(name) == b.function(name));
        crate::laws::case::lemma_function_known(a, name);
        match a.function(name) {
            Some(f) => {
                assert(a.return_type(f) == b.return_type(f));
                assert(a.minimum_count(f) == b.minimum_count(f));
                let declared = a.return_type(f);
                let final_type = result_type(declared, expected);
                if args.len() > 0 {
                    let variable = lowercase(args[0].string);
                    lemma_global_known(a, variable);
                    assert(a.global(variable) == b.global(variable));
                    match a.global(variable) {
                        Some(g) => {
                            assert(a.global_type(g) == b.global_type(g));
                        },
                        None => {},
                    }
                }
                assert(passthrough_seed(a, name, call_token, args, declared, final_type)
                    == passthrough_seed(b, name, call_token, args, declared, final_type));
                match passthrough_seed(a, name, call_token, args, declared, final_type) {
                    Ok(seed) => {
                        let start = Arguments { nodes: Seq::empty(), passthrough: seed };
                        lemma_analyze_arguments_rescoped(f, name, args, 0, start, a, b);
                        match analyze_arguments(a, f, name, args, 0, start) {
                            Ok(arguments) => {
                                let resolved = match arguments.passthrough {
                                    Some(t) => t,
                                    None => ValueType::Real,
                                };
                                assert(a.number_passthrough(f) == b.number_passthrough(f));
                                assert(a.inequality(f) == b.inequality(f));
                                lemma_read_literals_rescoped(
                                    a,
                                    b,
                                    f,
                                    args,
                                    mark_set(name, arguments.nodes),
                                    0,
                                    resolved,
                                );
                            },
                            Err(_) => {},
                        }
                    },
                    Err(_) => {},
                }
            },
            None => {},
        }
    }
}

/// The arguments of a call have the same nodes in scopes of the same
/// meaning.
pub proof fn lemma_analyze_arguments_rescoped(
    f: CallableFunction,
    name: Seq<char>,
    args: Seq<TokenModel>,
    i: int,
    so_far: Arguments,
    a: Scope,
    b: Scope,
)
    requires
        same_meaning(a, b),
        a.has(f),
        0 <= i,
    ensures
        analyze_arguments(a, f, name, args, i, so_far) == analyze_arguments(
            b,
            f,
            name,
            args,
            i,
            so_far,
        ),
    decreases 1 + cost_all(args), args.len() - i,
{
    if i < args.len() {
        assert(a.expected_type(f, i) == b.expected_type(f, i));
        assert(a.total_count(f) == b.total_count(f));
        assert(a.passthrough_last(f) == b.passthrough_last(f));
        match a.expected_type(f, i) {
            Some(declared) => {
                let is_last = i + 1 == args.len();
                let last_only = a.passthrough_last(f);
                let expected = argument_type(declared, last_only, is_last, so_far.passthrough);
                lemma_cost_all_bounds(args, i);
                lemma_analyze_rescoped(args[i], expected, a, b);
                match analyze(args[i], expected, a) {
                    Ok(node) => {
                        lemma_analyze_arguments_rescoped(
                            f,
                            name,
                            args,
                            i + 1,
                            Arguments {
                                nodes: so_far.nodes.push(node),
                                passthrough: if decides_passthrough(
                                    declared,
                                    last_only,
                                    is_last,
                                    so_far.passthrough,
                                ) && node.value_type != ValueType::Passthrough {
                                    Some(node.value_type)
                                } else {
                                    so_far.passthrough
                                },
                            },
                            a,
                            b,
                        );
                    },
                    Err(_) => {},
                }
            },
            None => {},
        }
    }
}

} // verus!
