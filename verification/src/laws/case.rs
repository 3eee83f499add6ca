//! Analysis does not look at the case of what it reads: a token and the
//! same token in lower case have the same node. This is so where no
//! parameter of the catalog keeps the capitals of its literals.

use crate::compile::analysis::analyze;
use crate::compile::analysis::analyze_arguments;
use crate::compile::analysis::analyze_call;
use crate::compile::analysis::analyze_leaf;
use crate::compile::analysis::argument_type;
use crate::compile::analysis::arm_body;
use crate::compile::analysis::arm_if;
use crate::compile::analysis::call_cost;
use crate::compile::analysis::cost;
use crate::compile::analysis::cost_all;
use crate::compile::analysis::decides_passthrough;
use crate::compile::analysis::desugar_cond;
use crate::compile::analysis::finish_call;
use crate::compile::analysis::is_arm;
use crate::compile::analysis::lemma_cost_all_bounds;
use crate::compile::analysis::lemma_desugar_cost;
use crate::compile::analysis::mark_set;
use crate::compile::analysis::passthrough_seed;
use crate::compile::analysis::read_literal;
use crate::compile::analysis::read_literals;
use crate::compile::analysis::result_type;
use crate::compile::analysis::Arguments;
use crate::compile::node::NodeModel;
use crate::compile::scope::CallableFunction;
use crate::compile::scope::Scope;
use crate::text::lemma_lowercase_idempotent;
use crate::text::lowercase;
use crate::token::leaf;
use crate::token::TokenModel;
use crate::types::NodeType;
use crate::types::PrimitiveType;
use crate::value_type::ValueType;
use vstd::prelude::*;

verus! {

/// A token with every text in it in lower case.
pub open spec fn lowered(t: TokenModel) -> TokenModel
    decreases t,
{
    TokenModel {
        string: lowercase(t.string),
        children: match t.children {
            Some(c) => Some(lowered_all(c)),
            None => None,
        },
        ..t
    }
}

/// Each token of a list with every text in it in lower case.
pub open spec fn lowered_all(s: Seq<TokenModel>) -> Seq<TokenModel>
    decreases s,
{
    Seq::new(
        s.len(),
        |i: int|
            if 0 <= i < s.len() {
                lowered(s[i])
            } else {
                arbitrary()
            },
    )
}

/// Whether no parameter of any function of the engine keeps the capitals
/// of its literals.
pub open spec fn folds_all_literals(scope: Scope) -> bool {
    forall|f: int, i: int|
        0 <= f < scope.functions.len() && 0 <= i < scope.functions[f].parameters@.len() ==> !(
        #[trigger] scope.functions[f].parameters@[i]).allow_uppercase
}

/// Whether two tokens stand at the same place.
pub open spec fn same_place(a: TokenModel, b: TokenModel) -> bool {
    a.file == b.file && a.line == b.line && a.column == b.column
}

/// The words `if` and `begin` are in lower case.
pub proof fn lemma_keywords_lowercase()
    ensures
        lowercase("if"@) == "if"@,
        lowercase("begin"@) == "begin"@,
        lowercase(Seq::<char>::empty()) == Seq::<char>::empty(),
{
    reveal_strlit("if");
    reveal_strlit("begin");
    assert(lowercase("if"@) =~= "if"@);
    assert(lowercase("begin"@) =~= "begin"@);
    assert(lowercase(Seq::<char>::empty()) =~= Seq::<char>::empty());
}

/// Rewriting a `cond` and putting it in lower case can be done in either
/// order.
pub proof fn lemma_desugar_lowered(arms: Seq<TokenModel>, i: int)
    requires
        0 <= i < arms.len(),
    ensures
        desugar_cond(lowered_all(arms), i) == match desugar_cond(arms, i) {
            Ok(t) => Ok::<TokenModel, crate::error::DiagnosticModel>(lowered(t)),
            Err(d) => Err::<TokenModel, crate::error::DiagnosticModel>(d),
        },
    decreases arms.len() - i,
{
    lemma_keywords_lowercase();
    let low = lowered_all(arms);
    assert(low[i] == lowered(arms[i]));
    if is_arm(arms[i]) {
        let arm = arms[i];
        let c = arm.children->0;
        let lc = lowered_all(c);
        assert(low[i].children->0 == lc);
        assert(lc[0] == lowered(c[0]));
        assert(lc[1] == lowered(c[1]));
        let body = arm_body(arm);
        let low_body = arm_body(low[i]);
        assert(lowered(body).children->0 =~= low_body.children->0) by {
            let parts = body.children->0;
            assert(parts[0] == leaf(c[1].line, c[1].column, c[1].file, "begin"@));
            assert forall|k: int| 0 <= k < parts.len() implies lowered_all(parts)[k]
                == low_body.children->0[k] by {
                if k > 0 {
                    assert(parts[k] == c[k]);
                    assert(lc[k] == lowered(c[k]));
                }
            }
        }
        assert(lowered(body) == low_body);
        let head = leaf(arm.line, arm.column, arm.file, "if"@);
        assert(lowered(head) == head);
        if i + 1 == arms.len() {
            let t = arm_if(arm, None);
            let parts = t.children->0;
            let other = arm_if(low[i], None).children->0;
            assert(parts =~= seq![head, c[0], body]);
            assert(other =~= seq![head, lc[0], low_body]);
            assert forall|k: int| 0 <= k < parts.len() implies lowered_all(parts)[k]
                == other[k] by {
                assert(lowered_all(parts)[k] == lowered(parts[k]));
            }
            assert(lowered(t).children->0 =~= arm_if(low[i], None).children->0);
        } else {
            lemma_desugar_lowered(arms, i + 1);
            match desugar_cond(arms, i + 1) {
                Ok(rest) => {
                    let t = arm_if(arm, Some(rest));
                    let parts = t.children->0;
                    let other = arm_if(low[i], Some(lowered(rest))).children->0;
                    assert(parts =~= seq![head, c[0], body, rest]);
                    assert(other =~= seq![head, lc[0], low_body, lowered(rest)]);
                    assert forall|k: int| 0 <= k < parts.len() implies lowered_all(parts)[k]
                        == other[k] by {
                        assert(lowered_all(parts)[k] == lowered(parts[k]));
                    }
                    assert(lowered(t).children->0 =~= arm_if(
                        low[i],
                        Some(lowered(rest)),
                    ).children->0);
                },
                Err(_) => {},
            }
        }
    }
}

/// Reading the literals among the arguments of a call gives the same for
/// the arguments in lower case.
pub proof fn lemma_read_literals_lowered(
    scope: Scope,
    f: CallableFunction,
    args: Seq<TokenModel>,
    nodes: Seq<NodeModel>,
    i: int,
    resolved: ValueType,
)
    requires
        folds_all_literals(scope),
        scope.has(f),
        0 <= i,
    ensures
        read_literals(scope, f, args, nodes, i, resolved) == read_literals(
            scope,
            f,
            lowered_all(args),
            nodes,
            i,
            resolved,
        ),
    decreases nodes.len() - i,
{
    let low = lowered_all(args);
    if i < nodes.len() && i < args.len() {
        assert(low[i] == lowered(args[i]));
        lemma_lowercase_idempotent(args[i].string);
        assert(!scope.uppercase_allowed(f, i)) by {
            match f {
                CallableFunction::Engine(p) => {
                    if 0 <= i < scope.functions[p as int].parameters@.len() {
                        assert(!scope.functions[p as int].parameters@[i].allow_uppercase);
                    }
                },
                CallableFunction::Script(_) => {},
            }
        }
        if nodes[i].node_type == NodeType::Primitive(PrimitiveType::Static) {
            let text = lowercase(args[i].string);
            let value_type = if nodes[i].value_type == ValueType::Passthrough {
                resolved
            } else {
                nodes[i].value_type
            };
            assert(read_literal(scope, args[i], text, value_type) == read_literal(
                scope,
                low[i],
                text,
                value_type,
            ));
            match read_literal(scope, args[i], text, value_type) {
                Ok(lit) => {
                    lemma_read_literals_lowered(
                        scope,
                        f,
                        args,
                        nodes.update(
                            i,
                            NodeModel {
                                value_type,
                                data: lit.data,
                                string_data: if lit.keeps_text {
                                    Some(text)
                                } else {
                                    None
                                },
                                ..nodes[i]
                            },
                        ),
                        i + 1,
                        resolved,
                    );
                },
                Err(_) => {},
            }
        } else {
            lemma_read_literals_lowered(scope, f, args, nodes, i + 1, resolved);
        }
    }
}

/// A token and the same token in lower case have the same node.
pub proof fn lemma_analyze_lowered(token: TokenModel, expected: ValueType, scope: Scope)
    requires
        folds_all_literals(scope),
    ensures
        analyze(token, expected, scope) == analyze(lowered(token), expected, scope),
    decreases cost(token), 0nat,
{
    lemma_lowercase_idempotent(token.string);
    match token.children {
        None => {
            assert(analyze_leaf(token, expected, scope) == analyze_leaf(
                lowered(token),
                expected,
                scope,
            ));
        },
        Some(children) => {
            if children.len() > 0 {
                let low = lowered_all(children);
                assert(low[0] == lowered(children[0]));
                lemma_lowercase_idempotent(children[0].string);
                let args = children.subrange(1, children.len() as int);
                assert(children.drop_first() =~= args);
                assert(low.subrange(1, low.len() as int) =~= lowered_all(args));
                lemma_analyze_call_lowered(
                    lowercase(children[0].string),
                    token,
                    lowered(token),
                    expected,
                    args,
                    scope,
                );
            }
        },
    }
}

/// A call and the same call with its arguments in lower case have the
/// same node.
#[verifier::rlimit(50)]
pub proof fn lemma_analyze_call_lowered(
    name: Seq<char>,
    call_token: TokenModel,
    other_token: TokenModel,
    expected: ValueType,
    args: Seq<TokenModel>,
    scope: Scope,
)
    requires
        folds_all_literals(scope),
        same_place(call_token, other_token),
    ensures
        analyze_call(name, call_token, expected, args, scope) == analyze_call(
            name,
            other_token,
            expected,
            lowered_all(args),
            scope,
        ),
    decreases call_cost(name, args), 0nat,
{
    let low = lowered_all(args);
    if name == "cond"@ {
        if args.len() > 0 {
            lemma_desugar_lowered(args, 0);
            match desugar_cond(args, 0) {
                Ok(t) => {
                    lemma_desugar_cost(args, 0);
                    assert(args.subrange(0, args.len() as int) =~= args);
                    lemma_analyze_lowered(t, expected, scope);
                },
                Err(_) => {},
            }
        }
    } else {
        match scope.function(name) {
            Some(f) => {
                let declared = scope.return_type(f);
                let final_type = result_type(declared, expected);
                if args.len() > 0 {
                    assert(low[0] == lowered(args[0]));
                    lemma_lowercase_idempotent(args[0].string);
                }
                assert(passthrough_seed(scope, name, call_token, args, declared, final_type)
                    == passthrough_seed(scope, name, other_token, low, declared, final_type));
                match passthrough_seed(scope, name, call_token, args, declared, final_type) {
                    Ok(seed) => {
                        let start = Arguments { nodes: Seq::empty(), passthrough: seed };
                        lemma_analyze_arguments_lowered(scope, f, name, args, 0, start);
                        match analyze_arguments(scope, f, name, args, 0, start) {
                            Ok(arguments) => {
                                let resolved = match arguments.passthrough {
                                    Some(t) => t,
                                    None => ValueType::Real,
                                };
                                lemma_function_known(scope, name);
                                lemma_read_literals_lowered(
                                    scope,
                                    f,
                                    args,
                                    mark_set(name, arguments.nodes),
                                    0,
                                    resolved,
                                );
                                assert(finish_call(
                                    scope,
                                    f,
                                    name,
                                    call_token,
                                    final_type,
                                    args,
                                    arguments,
                                ) == finish_call(
                                    scope,
                                    f,
                                    name,
                                    other_token,
                                    final_type,
                                    low,
                                    arguments,
                                ));
                            },
                            Err(_) => {},
                        }
                    },
                    Err(_) => {},
                }
            },
            None => {},
        }
    }
}

/// What a name calls lies in its list.
pub proof fn lemma_function_known(scope: Scope, name: Seq<char>)
    ensures
        scope.function(name) is Some ==> scope.has(scope.function(name)->0),
{
    crate::laws::references::lemma_script_position(
        scope.scripts,
        name,
        scope.scripts.len() as int,
    );
    crate::laws::references::lemma_engine_position(
        scope.functions,
        scope.target,
        name,
        scope.functions.len() as int,
    );
}

/// The arguments of a call and the same arguments in lower case have the
/// same nodes.
pub proof fn lemma_analyze_arguments_lowered(
    scope: Scope,
    f: CallableFunction,
    name: Seq<char>,
    args: Seq<TokenModel>,
    i: int,
    so_far: Arguments,
)
    requires
        folds_all_literals(scope),
        0 <= i,
    ensures
        analyze_arguments(scope, f, name, args, i, so_far) == analyze_arguments(
            scope,
            f,
            name,
            lowered_all(args),
            i,
            so_far,
        ),
    decreases 1 + cost_all(args), args.len() - i,
{
    let low = lowered_all(args);
    if i < args.len() {
        assert(low[i] == lowered(args[i]));
        match scope.expected_type(f, i) {
            Some(declared) => {
                let is_last = i + 1 == args.len();
                let last_only = scope.passthrough_last(f);
                let expected = argument_type(declared, last_only, is_last, so_far.passthrough);
                lemma_cost_all_bounds(args, i);
                lemma_analyze_lowered(args[i], expected, scope);
                match analyze(args[i], expected, scope) {
                    Ok(node) => {
                        lemma_analyze_arguments_lowered(
                            scope,
                            f,
                            name,
                            args,
                            i + 1,
                            Arguments {
                                nodes: so_far.nodes.push(node),
                                passthrough: if decides_passthrough(
                                    declared,
                                    last_only,
                                    is_last,
                                    so_far.passthrough,
                                ) && node.value_type != ValueType::Passthrough {
                                    Some(node.value_type)
                                } else {
                                    so_far.passthrough
                                },
                            },
                        );
                    },
                    Err(_) => {},
                }
            },
            None => {},
        }
    }
}

/// Analysis does not look at case: two tokens that are the same in lower
/// case have the same node, whatever type is expected of them, in every
/// scope whose catalog has no parameter that keeps the capitals of its
/// literals.
pub proof fn lemma_case_insensitive(
    a: TokenModel,
    b: TokenModel,
    expected: ValueType,
    scope: Scope,
)
    requires
        folds_all_literals(scope),
        lowered(a) == lowered(b),
    ensures
        analyze(a, expected, scope) == analyze(b, expected, scope),
{
    lemma_analyze_lowered(a, expected, scope);
    lemma_analyze_lowered(b, expected, scope);
}

/// A call of a function that is declared to return `Passthrough` has the
/// type that is expected of it.
pub proof fn lemma_passthrough_coherence(
    name: Seq<char>,
    call_token: TokenModel,
    expected: ValueType,
    args: Seq<TokenModel>,
    scope: Scope,
)
    requires
        name != "cond"@,
        scope.function(name) is Some,
        scope.return_type(scope.function(name)->0) == ValueType::Passthrough,
    ensures
        analyze_call(name, call_token, expected, args, scope) is Ok ==> analyze_call(
            name,
            call_token,
            expected,
            args,
            scope,
        )->Ok_0.value_type == expected,
{
}

/// Whether two parameters differ at most in the case of the token that is
/// kept for its place.
pub open spec fn like_parameter(
    a: crate::compile::script::ScriptParameterModel,
    b: crate::compile::script::ScriptParameterModel,
) -> bool {
    a.name == b.name && a.value_type == b.value_type && lowered(a.original_token) == lowered(
        b.original_token,
    )
}

/// Whether two lists of parameters differ at most in the case of the
/// tokens that are kept for their places.
pub open spec fn like_parameters(
    a: Seq<crate::compile::script::ScriptParameterModel>,
    b: Seq<crate::compile::script::ScriptParameterModel>,
) -> bool {
    a.len() == b.len() && forall|k: int| 0 <= k < a.len() ==> like_parameter(a[k], b[k])
}

/// Whether two definitions differ at most in the case of the tokens that
/// are kept for their places.
pub open spec fn like_definition(
    a: crate::compile::classify::DefinitionModel,
    b: crate::compile::classify::DefinitionModel,
) -> bool {
    match (a, b) {
        (
            crate::compile::classify::DefinitionModel::Global(x),
            crate::compile::classify::DefinitionModel::Global(y),
        ) => x.name == y.name && x.value_type == y.value_type && x.node == y.node && lowered(
            x.original_token,
        ) == lowered(y.original_token),
        (
            crate::compile::classify::DefinitionModel::Script(x),
            crate::compile::classify::DefinitionModel::Script(y),
        ) => x.name == y.name && x.return_type == y.return_type && x.script_type == y.script_type
            && x.node == y.node && like_parameters(x.parameters, y.parameters) && lowered(
            x.original_token,
        ) == lowered(y.original_token),
        _ => false,
    }
}

/// Putting a token in lower case twice is putting it in lower case once.
pub proof fn lemma_lowered_idempotent(t: TokenModel)
    ensures
        lowered(lowered(t)) == lowered(t),
    decreases t,
{
    lemma_lowercase_idempotent(t.string);
    match t.children {
        Some(c) => {
            assert forall|k: int| 0 <= k < c.len() implies lowered(lowered_all(c)[k])
                == lowered_all(c)[k] by {
                lemma_lowered_idempotent(c[k]);
            }
            assert(lowered_all(lowered_all(c)) =~= lowered_all(c));
        },
        None => {},
    }
}

/// The parameters of a script do not depend on the case of their
/// declarations.
pub proof fn lemma_classify_parameters_lowered(
    c: Seq<TokenModel>,
    i: int,
    a: Seq<crate::compile::script::ScriptParameterModel>,
    b: Seq<crate::compile::script::ScriptParameterModel>,
)
    requires
        0 <= i,
        like_parameters(a, b),
    ensures
        match (
            crate::compile::classify::classify_parameters(c, i, a),
            crate::compile::classify::classify_parameters(lowered_all(c), i, b),
        ) {
            (Ok(x), Ok(y)) => like_parameters(x, y),
            (Err(d), Err(e)) => d == e,
            _ => false,
        },
    decreases c.len() - i,
{
    let low = lowered_all(c);
    if i < c.len() {
        assert(low[i] == lowered(c[i]));
        match c[i].children {
            Some(p) => {
                let lp = lowered_all(p);
                if p.len() == 2 {
                    assert(lp[0] == lowered(p[0]));
                    assert(lp[1] == lowered(p[1]));
                    lemma_lowercase_idempotent(p[0].string);
                    lemma_lowercase_idempotent(p[1].string);
                    lemma_lowered_idempotent(p[1]);
                }
            },
            None => {},
        }
        match (
            crate::compile::classify::classify_parameter(c[i]),
            crate::compile::classify::classify_parameter(low[i]),
        ) {
            (Ok(x), Ok(y)) => {
                assert(like_parameter(x, y));
                assert forall|k: int| 0 <= k < a.push(x).len() implies like_parameter(
                    a.push(x)[k],
                    b.push(y)[k],
                ) by {
                    if k < a.len() {
                        assert(like_parameter(a[k], b[k]));
                    }
                }
                lemma_classify_parameters_lowered(c, i + 1, a.push(x), b.push(y));
            },
            _ => {},
        }
    }
}

/// Classification does not look at case: a top-level token and the same
/// token in lower case define the same, but for the tokens that are kept
/// for their places, and fail alike.
pub proof fn lemma_classify_lowered(token: TokenModel, target: crate::types::CompileTarget)
    ensures
        match (
            crate::compile::classify::classify(token, target),
            crate::compile::classify::classify(lowered(token), target),
        ) {
            (Ok(a), Ok(b)) => like_definition(a, b),
            (Err(d), Err(e)) => d == e,
            _ => false,
        },
{
    lemma_lowered_idempotent(token);
    lemma_lowercase_idempotent(token.string);
    match token.children {
        Some(children) => {
            let low = lowered_all(children);
            assert forall|k: int| 0 <= k < children.len() implies low[k] == lowered(children[k])
                && lowercase(low[k].string) == lowercase(children[k].string) && (
            low[k].children is Some <==> children[k].children is Some) by {
                lemma_lowercase_idempotent(children[k].string);
            }
            if children.len() > 0 {
                assert(low[0] == lowered(children[0]));
            }
            if children.len() > 1 {
                assert(low[1] == lowered(children[1]));
            }
            if children.len() > 2 {
                assert(low[2] == lowered(children[2]));
                lemma_name_token_lowered(children[2]);
            }
            if children.len() > 3 {
                assert(low[3] == lowered(children[3]));
                lemma_name_token_lowered(children[3]);
            }
            if children.len() > 4 {
                assert(low[4] == lowered(children[4]));
            }
        },
        None => {},
    }
}

/// The name and the parameters that a name token declares do not depend
/// on its case.
pub proof fn lemma_name_token_lowered(name_token: TokenModel)
    ensures
        forall|kind: crate::types::ScriptType, target: crate::types::CompileTarget|
            match (
                #[trigger] crate::compile::classify::classify_signature(name_token, kind, target),
                crate::compile::classify::classify_signature(lowered(name_token), kind, target),
            ) {
                (Ok(x), Ok(y)) => x.name == y.name && like_parameters(x.parameters, y.parameters),
                (Err(d), Err(e)) => d == e,
                _ => false,
            },
{
    lemma_lowercase_idempotent(name_token.string);
    match name_token.children {
        Some(c) => {
            let low = lowered_all(c);
            if c.len() > 0 {
                assert(low[0] == lowered(c[0]));
                lemma_lowercase_idempotent(c[0].string);
                lemma_classify_parameters_lowered(c, 1, Seq::empty(), Seq::empty());
            }
        },
        None => {},
    }
}

} // verus!
