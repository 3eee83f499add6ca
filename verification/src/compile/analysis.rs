//! What analysis gives for an expression: the typed node of a token, given
//! the type that is expected of it and the names in scope.
//!
//! A word is a variable where a parameter or a global has its name, and a
//! literal otherwise. A block is a call: its first token names the function
//! and the rest are the arguments. `cond` is rewritten into nested `if`
//! before it is analyzed.

use crate::compile::node::NodeModel;
use crate::compile::scope::CallableFunction;
use crate::compile::scope::Scope;
use crate::compile::script::parameter_position;
use crate::error::DiagnosticModel;
use crate::error::ErrorKind;
use crate::text::decimal;
use crate::text::long_literal;
use crate::text::lowercase;
use crate::text::real_literal;
use crate::text::short_literal;
use crate::token::block;
use crate::token::leaf;
use crate::token::TokenModel;
use crate::types::NodeDataModel;
use crate::types::NodeType;
use crate::types::PrimitiveType;
use crate::value_type::ValueType;
use vstd::prelude::*;

verus! {

/// A diagnostic at the place of a token.
pub open spec fn fault_at(token: TokenModel, kind: ErrorKind, message: Seq<char>) -> DiagnosticModel {
    DiagnosticModel { kind, message, file: token.file, line: token.line, column: token.column }
}

/// A measure of a token that analysis decreases: one for a word, and for a
/// block three more than its parts together, with five more for each part
/// of a `cond`, which is rewritten into something larger before it is
/// analyzed.
pub open spec fn cost(t: TokenModel) -> nat
    decreases t,
{
    match t.children {
        None => 1,
        Some(c) => 3 + cost_all(c) + if c.len() > 0 && lowercase(c[0].string) == "cond"@ {
            5 * c.len()
        } else {
            0
        },
    }
}

/// The measures of a list of tokens together.
pub open spec fn cost_all(s: Seq<TokenModel>) -> nat
    decreases s,
{
    if s.len() == 0 {
        0
    } else {
        cost(s[0]) + cost_all(s.drop_first())
    }
}

/// The measure of a call of `name` with these arguments.
pub open spec fn call_cost(name: Seq<char>, args: Seq<TokenModel>) -> nat {
    2 + cost_all(args) + if name == "cond"@ {
        5 * args.len()
    } else {
        0
    }
}

/// The measure of a list is that of a part and of the rest together.
pub proof fn lemma_cost_all_split(s: Seq<TokenModel>, k: int)
    requires
        0 <= k <= s.len(),
    ensures
        cost_all(s) == cost_all(s.subrange(0, k)) + cost_all(s.subrange(k, s.len() as int)),
    decreases s.len(),
{
    if k == 0 {
        assert(s.subrange(0, 0) =~= Seq::empty());
        assert(s.subrange(0, s.len() as int) =~= s);
    } else {
        let rest = s.drop_first();
        lemma_cost_all_split(rest, k - 1);
        assert(s.subrange(0, k).drop_first() =~= rest.subrange(0, k - 1));
        assert(s.subrange(k, s.len() as int) =~= rest.subrange(k - 1, rest.len() as int));
        assert(s.subrange(0, k)[0] == s[0]);
    }
}

/// The measure of a list is at least that of each of its tokens.
pub proof fn lemma_cost_all_bounds(s: Seq<TokenModel>, i: int)
    requires
        0 <= i < s.len(),
    ensures
        cost(s[i]) <= cost_all(s),
    decreases s.len(),
{
    if i > 0 {
        lemma_cost_all_bounds(s.drop_first(), i - 1);
    }
}

/// The measure of two lists in a row.
pub proof fn lemma_cost_all_concat(a: Seq<TokenModel>, b: Seq<TokenModel>)
    ensures
        cost_all(a + b) == cost_all(a) + cost_all(b),
{
    lemma_cost_all_split(a + b, a.len() as int);
    assert((a + b).subrange(0, a.len() as int) =~= a);
    assert((a + b).subrange(a.len() as int, (a + b).len() as int) =~= b);
}

/// Whether an arm of a `cond` is a block of a condition and at least one
/// expression.
pub open spec fn is_arm(arm: TokenModel) -> bool {
    arm.children is Some && arm.children->0.len() >= 2
}

/// `(begin <expression(s)>)` for the expressions of an arm, at the place of
/// the first of them.
pub open spec fn arm_body(arm: TokenModel) -> TokenModel {
    let c = arm.children->0;
    block(
        c[1].line,
        c[1].column,
        c[1].file,
        Seq::empty(),
        seq![leaf(c[1].line, c[1].column, c[1].file, "begin"@)] + c.subrange(1, c.len() as int),
    )
}

/// `(if <condition> (begin <expression(s)>) <rest>)` for an arm, at the
/// place of the arm.
pub open spec fn arm_if(arm: TokenModel, rest: Option<TokenModel>) -> TokenModel {
    let head = seq![
        leaf(arm.line, arm.column, arm.file, "if"@),
        arm.children->0[0],
        arm_body(arm),
    ];
    block(
        arm.line,
        arm.column,
        arm.file,
        Seq::empty(),
        match rest {
            Some(t) => head.push(t),
            None => head,
        },
    )
}

/// The message for an arm of another shape.
pub open spec fn cond_shape_message() -> Seq<char> {
    "cond requires each parameter to be (<condition> <expression(s)>)"@
}

/// The nested `if` that the arms of a `cond` from position `i` on stand
/// for, or the diagnostic for the first arm of another shape.
pub open spec fn desugar_cond(arms: Seq<TokenModel>, i: int) -> Result<TokenModel, DiagnosticModel>
    decreases arms.len() - i,
{
    if i < 0 || i >= arms.len() {
        Err(fault_at(leaf(0, 0, 0, Seq::empty()), ErrorKind::CondShape, cond_shape_message()))
    } else if !is_arm(arms[i]) {
        Err(fault_at(arms[i], ErrorKind::CondShape, cond_shape_message()))
    } else if i + 1 == arms.len() {
        Ok(arm_if(arms[i], None))
    } else {
        match desugar_cond(arms, i + 1) {
            Err(d) => Err(d),
            Ok(t) => Ok(arm_if(arms[i], Some(t))),
        }
    }
}

/// The nested `if` of a `cond` costs at most five more for each arm than
/// the arms themselves.
pub proof fn lemma_desugar_cost(arms: Seq<TokenModel>, i: int)
    requires
        0 <= i < arms.len(),
    ensures
        desugar_cond(arms, i) is Ok ==> cost(desugar_cond(arms, i)->Ok_0) <= cost_all(
            arms.subrange(i, arms.len() as int),
        ) + 5 * (arms.len() - i),
    decreases arms.len() - i,
{
    reveal_strlit("if");
    reveal_strlit("begin");
    reveal_strlit("cond");
    reveal_with_fuel(cost_all, 5);
    let tail = arms.subrange(i, arms.len() as int);
    assert(tail[0] == arms[i]);
    assert(tail.drop_first() =~= arms.subrange(i + 1, arms.len() as int));
    if is_arm(arms[i]) {
        let arm = arms[i];
        let c = arm.children->0;
        let body = arm_body(arm);
        let body_parts = body.children->0;
        let begin = leaf(c[1].line, c[1].column, c[1].file, "begin"@);
        assert(lowercase("begin"@) =~= "begin"@);
        assert(lowercase("if"@) =~= "if"@);
        assert("begin"@ != "cond"@) by {
            assert("begin"@.len() != "cond"@.len());
        }
        assert("if"@ != "cond"@) by {
            assert("if"@.len() != "cond"@.len());
        }
        lemma_cost_all_concat(seq![begin], c.subrange(1, c.len() as int));
        assert(cost_all(seq![begin]) == 1) by {
            assert(seq![begin].drop_first() =~= Seq::<TokenModel>::empty());
        }
        assert(body_parts[0] == begin);
        assert(cost(body) == 3 + 1 + cost_all(c.subrange(1, c.len() as int)));
        assert(cost_all(c) == cost(c[0]) + cost_all(c.drop_first()));
        assert(c.drop_first() =~= c.subrange(1, c.len() as int));
        assert(cost(arm) >= 3 + cost(c[0]) + cost_all(c.subrange(1, c.len() as int)));
        let if_leaf = leaf(arm.line, arm.column, arm.file, "if"@);
        let head = seq![if_leaf, c[0], body];
        assert(cost_all(head) == 1 + cost(c[0]) + cost(body)) by {
            assert(head.drop_first() =~= seq![c[0], body]);
            assert(seq![c[0], body].drop_first() =~= seq![body]);
            assert(seq![body].drop_first() =~= Seq::<TokenModel>::empty());
        }
        if i + 1 == arms.len() {
            let t = arm_if(arm, None);
            assert(t.children->0 == head);
            assert(cost(t) == 3 + cost_all(head));
            assert(cost_all(tail.drop_first()) == 0);
        } else {
            lemma_desugar_cost(arms, i + 1);
            match desugar_cond(arms, i + 1) {
                Err(d) => {},
                Ok(rest) => {
                    let t = arm_if(arm, Some(rest));
                    assert(t.children->0 == head.push(rest));
                    assert(head.push(rest) =~= head + seq![rest]);
                    lemma_cost_all_concat(head, seq![rest]);
                    assert(cost_all(seq![rest]) == cost(rest)) by {
                        assert(seq![rest].drop_first() =~= Seq::<TokenModel>::empty());
                    }
                    assert(head.push(rest)[0] == if_leaf);
                    assert(cost(t) == 3 + cost_all(head) + cost(rest));
                },
            }
        }
    }
}

/// The node of a word.
pub open spec fn primitive(
    token: TokenModel,
    name: Seq<char>,
    kind: PrimitiveType,
    value_type: ValueType,
) -> NodeModel {
    NodeModel {
        value_type,
        node_type: NodeType::Primitive(kind),
        string_data: Some(name),
        data: None,
        index: None,
        parameters: None,
        file: token.file,
        line: token.line,
        column: token.column,
    }
}

/// The message for a variable that cannot stand where it is used.
pub open spec fn variable_convert_message(
    name: Seq<char>,
    declared: ValueType,
    expected: ValueType,
) -> Seq<char> {
    "global '"@ + name + "' is '"@ + declared.name() + "' which cannot convert to '"@
        + expected.name() + "'"@
}

/// The node of a variable: of its declared type where any type will do, of
/// the expected type where the declared type converts to it.
pub open spec fn variable(
    token: TokenModel,
    name: Seq<char>,
    kind: PrimitiveType,
    declared: ValueType,
    expected: ValueType,
) -> Result<NodeModel, DiagnosticModel> {
    if expected == ValueType::Passthrough {
        Ok(primitive(token, name, kind, declared))
    } else if declared.converts_to(expected) {
        Ok(primitive(token, name, kind, expected))
    } else {
        Err(
            fault_at(
                token,
                ErrorKind::ConvertError,
                variable_convert_message(name, declared, expected),
            ),
        )
    }
}

/// The node of a word: a parameter of the enclosing script, else a global,
/// else a literal of the expected type, which is read later.
pub open spec fn analyze_leaf(token: TokenModel, expected: ValueType, scope: Scope) -> Result<
    NodeModel,
    DiagnosticModel,
> {
    let name = lowercase(token.string);
    match parameter_position(name, scope.locals) {
        Some(n) => variable(
            token,
            name,
            PrimitiveType::Local,
            scope.locals[n].value_type,
            expected,
        ),
        None => match scope.global(name) {
            Some(g) => variable(token, name, PrimitiveType::Global, scope.global_type(g), expected),
            None => Ok(primitive(token, name, PrimitiveType::Static, expected)),
        },
    }
}

/// The type of a call: what the call site expects where the function
/// returns `Passthrough` and the site expects a type, else what the
/// function declares.
pub open spec fn result_type(declared: ValueType, expected: ValueType) -> ValueType {
    if declared == ValueType::Passthrough && expected != ValueType::Passthrough {
        expected
    } else {
        declared
    }
}

/// The type that an argument is analyzed with. A `Passthrough` parameter
/// stands for `Void` where only the last argument counts and this is not
/// it, else for the passthrough type where it is known.
pub open spec fn argument_type(
    declared: ValueType,
    passthrough_last: bool,
    is_last: bool,
    passthrough: Option<ValueType>,
) -> ValueType {
    if declared != ValueType::Passthrough {
        declared
    } else if passthrough_last && !is_last {
        ValueType::Void
    } else {
        match passthrough {
            Some(t) => t,
            None => ValueType::Passthrough,
        }
    }
}

/// Whether the type of an argument decides the passthrough type.
pub open spec fn decides_passthrough(
    declared: ValueType,
    passthrough_last: bool,
    is_last: bool,
    passthrough: Option<ValueType>,
) -> bool {
    declared == ValueType::Passthrough && !(passthrough_last && !is_last) && passthrough is None
}

/// The message for a call that names no function.
pub open spec fn unknown_function_message(name: Seq<char>) -> Seq<char> {
    "function '"@ + name + "' is not defined"@
}

/// The message for a call with too few arguments.
pub open spec fn too_few_message(name: Seq<char>, minimum: nat, given: nat) -> Seq<char> {
    "function '"@ + name + "' takes at least "@ + decimal(minimum) + " parameter(s), got "@
        + decimal(given) + " instead"@
}

/// The message for a call with too many arguments.
pub open spec fn too_many_message(name: Seq<char>, total: nat) -> Seq<char> {
    "function '"@ + name + "' takes at most "@ + decimal(total)
        + " parameter(s) but extraneous parameter(s) were given"@
}

/// The message for a call whose type cannot stand where it is used.
pub open spec fn call_convert_message(
    name: Seq<char>,
    from: ValueType,
    to: ValueType,
) -> Seq<char> {
    "function '"@ + name + "' returns '"@ + from.name() + "' which cannot convert to '"@
        + to.name() + "'"@
}

/// The message for a `set` whose variable is a block.
pub open spec fn set_block_message() -> Seq<char> {
    "function 'set' cannot take a block as the variable name"@
}

/// The message for a `set` without a variable.
pub open spec fn set_missing_message() -> Seq<char> {
    "function 'set' requires a name of a variable"@
}

/// The message for a `set` of something that is no global.
pub open spec fn set_unknown_message(name: Seq<char>) -> Seq<char> {
    "parameter '"@ + name + "' is not a global variable name"@
}

/// The message for a passthrough type that should be numeric and is not.
pub open spec fn numeric_message(name: Seq<char>, resolved: ValueType) -> Seq<char> {
    "passthrough parameters resolve to '"@ + resolved.name() + "', but function '"@ + name
        + "' takes only numeric parameters"@
}

/// The message for a passthrough type that cannot be compared.
pub open spec fn inequality_message(name: Seq<char>, resolved: ValueType) -> Seq<char> {
    "passthrough parameters resolve to '"@ + resolved.name() + "', but function '"@ + name
        + "' is an inequality operator"@
}

/// The message for a literal that cannot be read, with what was expected.
pub open spec fn literal_message(
    text: Seq<char>,
    value_type: ValueType,
    allowed: Seq<char>,
) -> Seq<char> {
    "cannot parse token '"@ + text + "' as "@ + value_type.name()
        + " and no global of this name defined (expected "@ + allowed + ")"@
}

/// The message for a literal that cannot be read and names a function.
pub open spec fn literal_call_message(text: Seq<char>, value_type: ValueType) -> Seq<char> {
    "cannot parse token '"@ + text + "' as "@ + value_type.name()
        + " and no global of this name defined; did you mean to call '("@ + text
        + ")' as a function?"@
}

/// The message for a script literal that names a function of the engine.
pub open spec fn script_literal_message(text: Seq<char>) -> Seq<char> {
    "no script '"@ + text
        + "' defined (a function is defined by this name, but it cannot be used here)"@
}

/// The passthrough type that a call begins with. For `set` it is the type
/// of the global that the first argument names. Else it is the type of the
/// call where the function returns `Passthrough` and the call site has
/// decided the type. Else it is open.
pub open spec fn passthrough_seed(
    scope: Scope,
    name: Seq<char>,
    call_token: TokenModel,
    args: Seq<TokenModel>,
    declared: ValueType,
    final_type: ValueType,
) -> Result<Option<ValueType>, DiagnosticModel> {
    if name == "set"@ {
        if args.len() == 0 {
            Err(fault_at(call_token, ErrorKind::SetOnNonGlobal, set_missing_message()))
        } else if args[0].children is Some {
            Err(fault_at(call_token, ErrorKind::SetOnNonGlobal, set_block_message()))
        } else {
            match scope.global(lowercase(args[0].string)) {
                Some(g) => Ok(Some(scope.global_type(g))),
                None => Err(
                    fault_at(
                        call_token,
                        ErrorKind::SetOnNonGlobal,
                        set_unknown_message(lowercase(args[0].string)),
                    ),
                ),
            }
        }
    } else if declared == ValueType::Passthrough && final_type != declared {
        Ok(Some(final_type))
    } else {
        Ok(None)
    }
}

/// What reading a literal gives: its data, and whether the node keeps the
/// text.
pub struct Literal {
    pub data: Option<NodeDataModel>,
    pub keeps_text: bool,
}

/// The diagnostic for a literal that cannot be read. Where the text names
/// a function, the message says so.
pub open spec fn unreadable(
    scope: Scope,
    token: TokenModel,
    text: Seq<char>,
    value_type: ValueType,
    allowed: Seq<char>,
) -> DiagnosticModel {
    fault_at(
        token,
        ErrorKind::BadLiteral,
        if scope.function(text) is Some {
            literal_call_message(text, value_type)
        } else {
            literal_message(text, value_type, allowed)
        },
    )
}

/// What a text is as a literal of a type.
pub open spec fn read_literal(
    scope: Scope,
    token: TokenModel,
    text: Seq<char>,
    value_type: ValueType,
) -> Result<Literal, DiagnosticModel> {
    match value_type {
        ValueType::Boolean => if text == "0"@ || text == "false"@ || text == "off"@ {
            Ok(Literal { data: Some(NodeDataModel::Boolean(false)), keeps_text: false })
        } else if text == "1"@ || text == "true"@ || text == "on"@ {
            Ok(Literal { data: Some(NodeDataModel::Boolean(true)), keeps_text: false })
        } else {
            Err(unreadable(scope, token, text, value_type, "0/1/false/true/off/on"@))
        },
        ValueType::Short => match short_literal(text) {
            Some(v) => Ok(Literal { data: Some(NodeDataModel::Short(v)), keeps_text: false }),
            None => Err(
                unreadable(scope, token, text, value_type, "integer between [-32768,32767]"@),
            ),
        },
        ValueType::Long => match long_literal(text) {
            Some(v) => Ok(Literal { data: Some(NodeDataModel::Long(v)), keeps_text: false }),
            None => Err(
                unreadable(
                    scope,
                    token,
                    text,
                    value_type,
                    "integer between [-2147483648,2147483647]"@,
                ),
            ),
        },
        ValueType::Real => if real_literal(text) {
            Ok(Literal { data: Some(NodeDataModel::Real(text)), keeps_text: false })
        } else {
            Err(unreadable(scope, token, text, value_type, "numeric value"@))
        },
        ValueType::GameDifficulty => if text == "easy"@ {
            Ok(Literal { data: Some(NodeDataModel::Short(0)), keeps_text: true })
        } else if text == "normal"@ {
            Ok(Literal { data: Some(NodeDataModel::Short(1)), keeps_text: true })
        } else if text == "hard"@ {
            Ok(Literal { data: Some(NodeDataModel::Short(2)), keeps_text: true })
        } else if text == "impossible"@ {
            Ok(Literal { data: Some(NodeDataModel::Short(3)), keeps_text: true })
        } else {
            Err(unreadable(scope, token, text, value_type, "easy/normal/hard/impossible"@))
        },
        ValueType::Team => if text == "default"@ {
            Ok(Literal { data: Some(NodeDataModel::Short(0)), keeps_text: true })
        } else if text == "player"@ {
            Ok(Literal { data: Some(NodeDataModel::Short(1)), keeps_text: true })
        } else if text == "human"@ {
            Ok(Literal { data: Some(NodeDataModel::Short(2)), keeps_text: true })
        } else if text == "covenant"@ {
            Ok(Literal { data: Some(NodeDataModel::Short(3)), keeps_text: true })
        } else if text == "flood"@ {
            Ok(Literal { data: Some(NodeDataModel::Short(4)), keeps_text: true })
        } else if text == "sentinel"@ {
            Ok(Literal { data: Some(NodeDataModel::Short(5)), keeps_text: true })
        } else if text == "unused6"@ {
            Ok(Literal { data: Some(NodeDataModel::Short(6)), keeps_text: true })
        } else if text == "unused7"@ {
            Ok(Literal { data: Some(NodeDataModel::Short(7)), keeps_text: true })
        } else if text == "unused8"@ {
            Ok(Literal { data: Some(NodeDataModel::Short(8)), keeps_text: true })
        } else if text == "unused9"@ {
            Ok(Literal { data: Some(NodeDataModel::Short(9)), keeps_text: true })
        } else {
            Err(
                unreadable(
                    scope,
                    token,
                    text,
                    value_type,
                    "default/player/human/covenant/flood/sentinel/unused6/unused7/unused8/unused9"@,
                ),
            )
        },
        ValueType::Script => match scope.function(text) {
            Some(CallableFunction::Script(_)) => Ok(Literal { data: None, keeps_text: true }),
            Some(CallableFunction::Engine(_)) => Err(
                fault_at(token, ErrorKind::BadLiteral, script_literal_message(text)),
            ),
            None => Err(unreadable(scope, token, text, value_type, "script name"@)),
        },
        ValueType::Void | ValueType::Passthrough | ValueType::SpecialForm => Err(
            unreadable(scope, token, text, value_type, "function call or global"@),
        ),
        _ => Ok(Literal { data: None, keeps_text: true }),
    }
}

/// The arguments of a call with their literals read, from position `i` on.
/// A literal keeps its capitals where the parameter allows it, and a
/// literal of open type takes the passthrough type of the call.
pub open spec fn read_literals(
    scope: Scope,
    f: CallableFunction,
    args: Seq<TokenModel>,
    nodes: Seq<NodeModel>,
    i: int,
    resolved: ValueType,
) -> Result<Seq<NodeModel>, DiagnosticModel>
    decreases nodes.len() - i,
{
    if i < 0 || i >= nodes.len() || i >= args.len() {
        Ok(nodes)
    } else if nodes[i].node_type == NodeType::Primitive(PrimitiveType::Static) {
        let text = if scope.uppercase_allowed(f, i) {
            args[i].string
        } else {
            lowercase(args[i].string)
        };
        let value_type = if nodes[i].value_type == ValueType::Passthrough {
            resolved
        } else {
            nodes[i].value_type
        };
        match read_literal(scope, args[i], text, value_type) {
            Err(d) => Err(d),
            Ok(lit) => read_literals(
                scope,
                f,
                args,
                nodes.update(
                    i,
                    NodeModel {
                        value_type,
                        data: lit.data,
                        string_data: if lit.keeps_text {
                            Some(text)
                        } else {
                            None
                        },
                        ..nodes[i]
                    },
                ),
                i + 1,
                resolved,
            ),
        }
    } else {
        read_literals(scope, f, args, nodes, i + 1, resolved)
    }
}

/// What the arguments of a call give: their nodes and the passthrough type
/// that they have decided, if any.
pub struct Arguments {
    pub nodes: Seq<NodeModel>,
    pub passthrough: Option<ValueType>,
}

/// The index that marks the variable of a `set`.
pub open spec fn set_marker() -> u16 {
    0xFFFF
}

/// The nodes of a call's arguments with the variable of a `set` marked.
pub open spec fn mark_set(name: Seq<char>, nodes: Seq<NodeModel>) -> Seq<NodeModel> {
    if name == "set"@ && nodes.len() > 0 {
        nodes.update(0, NodeModel { index: Some(set_marker()), ..nodes[0] })
    } else {
        nodes
    }
}

/// The node of a call whose arguments are analyzed: the passthrough type
/// defaults to `Real`, it is held against what the function demands of it,
/// and the literals among the arguments are read.
pub open spec fn finish_call(
    scope: Scope,
    f: CallableFunction,
    name: Seq<char>,
    call_token: TokenModel,
    final_type: ValueType,
    args: Seq<TokenModel>,
    arguments: Arguments,
) -> Result<NodeModel, DiagnosticModel> {
    let resolved = match arguments.passthrough {
        Some(t) => t,
        None => ValueType::Real,
    };
    let numeric = resolved.converts_to(ValueType::Real);
    if scope.number_passthrough(f) && !numeric {
        Err(fault_at(call_token, ErrorKind::PassthroughTypeMismatch, numeric_message(name, resolved)))
    } else if scope.inequality(f) && !(numeric || resolved == ValueType::GameDifficulty || resolved
        == ValueType::Team) {
        Err(
            fault_at(
                call_token,
                ErrorKind::PassthroughTypeMismatch,
                inequality_message(name, resolved),
            ),
        )
    } else {
        match read_literals(scope, f, args, mark_set(name, arguments.nodes), 0, resolved) {
            Err(d) => Err(d),
            Ok(nodes) => Ok(
                NodeModel {
                    value_type: final_type,
                    node_type: NodeType::FunctionCall(f is Engine),
                    string_data: Some(name),
                    data: None,
                    index: None,
                    parameters: Some(nodes),
                    file: call_token.file,
                    line: call_token.line,
                    column: call_token.column,
                },
            ),
        }
    }
}

/// The node of a token that is expected to be of a type.
pub open spec fn analyze(token: TokenModel, expected: ValueType, scope: Scope) -> Result<
    NodeModel,
    DiagnosticModel,
>
    decreases cost(token), 0nat,
{
    match token.children {
        None => analyze_leaf(token, expected, scope),
        Some(children) => if children.len() == 0 {
            Err(fault_at(token, ErrorKind::EmptyBlock, "empty block"@))
        } else {
            proof {
                assert(children.drop_first() =~= children.subrange(1, children.len() as int));
            }
            analyze_call(
                lowercase(children[0].string),
                token,
                expected,
                children.subrange(1, children.len() as int),
                scope,
            )
        },
    }
}

/// The node of a call of `name` with the arguments `args`, at the place of
/// `call_token`.
pub open spec fn analyze_call(
    name: Seq<char>,
    call_token: TokenModel,
    expected: ValueType,
    args: Seq<TokenModel>,
    scope: Scope,
) -> Result<NodeModel, DiagnosticModel>
    decreases call_cost(name, args), 0nat,
{
    if name == "cond"@ {
        if args.len() == 0 {
            Err(
                fault_at(
                    call_token,
                    ErrorKind::CondShape,
                    "cond requires at least one set of expressions"@,
                ),
            )
        } else {
            match desugar_cond(args, 0) {
                Err(d) => Err(d),
                Ok(t) => {
                    proof {
                        lemma_desugar_cost(args, 0);
                        assert(args.subrange(0, args.len() as int) =~= args);
                    }
                    analyze(t, expected, scope)
                },
            }
        }
    } else {
        match scope.function(name) {
            None => Err(
                fault_at(call_token, ErrorKind::UnknownFunction, unknown_function_message(name)),
            ),
            Some(f) => {
                let declared = scope.return_type(f);
                let final_type = result_type(declared, expected);
                if args.len() < scope.minimum_count(f) {
                    Err(
                        fault_at(
                            call_token,
                            ErrorKind::TooFewArgs,
                            too_few_message(name, scope.minimum_count(f), args.len()),
                        ),
                    )
                } else if expected != ValueType::Passthrough && !final_type.converts_to(expected) {
                    Err(
                        fault_at(
                            call_token,
                            ErrorKind::ConvertError,
                            call_convert_message(name, final_type, expected),
                        ),
                    )
                } else {
                    match passthrough_seed(scope, name, call_token, args, declared, final_type) {
                        Err(d) => Err(d),
                        Ok(seed) => match analyze_arguments(
                            scope,
                            f,
                            name,
                            args,
                            0,
                            Arguments { nodes: Seq::empty(), passthrough: seed },
                        ) {
                            Err(d) => Err(d),
                            Ok(arguments) => finish_call(
                                scope,
                                f,
                                name,
                                call_token,
                                final_type,
                                args,
                                arguments,
                            ),
                        },
                    }
                }
            },
        }
    }
}

/// The nodes of the arguments from position `i` on, after those analyzed
/// so far, in order. An argument that is analyzed with an open type and
/// comes back with a type decides the passthrough type for those after it.
pub open spec fn analyze_arguments(
    scope: Scope,
    f: CallableFunction,
    name: Seq<char>,
    args: Seq<TokenModel>,
    i: int,
    so_far: Arguments,
) -> Result<Arguments, DiagnosticModel>
    decreases 1 + cost_all(args), args.len() - i,
{
    if i < 0 || i >= args.len() {
        Ok(so_far)
    } else {
        match scope.expected_type(f, i) {
            None => Err(
                fault_at(
                    args[i],
                    ErrorKind::TooManyArgs,
                    too_many_message(name, scope.total_count(f)),
                ),
            ),
            Some(declared) => {
                let is_last = i + 1 == args.len();
                let last_only = scope.passthrough_last(f);
                let expected = argument_type(declared, last_only, is_last, so_far.passthrough);
                proof {
                    lemma_cost_all_bounds(args, i);
                }
                match analyze(args[i], expected, scope) {
                    Err(d) => Err(d),
                    Ok(node) => analyze_arguments(
                        scope,
                        f,
                        name,
                        args,
                        i + 1,
                        Arguments {
                            nodes: so_far.nodes.push(node),
                            passthrough: if decides_passthrough(
                                declared,
                                last_only,
                                is_last,
                                so_far.passthrough,
                            ) && node.value_type != ValueType::Passthrough {
                                Some(node.value_type)
                            } else {
                                so_far.passthrough
                            },
                        },
                    ),
                }
            },
        }
    }
}

} // verus!
