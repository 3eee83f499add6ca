//! The analyzer: from a token and the type expected of it to a typed node.

use crate::compile::analysis::analyze;
use crate::compile::analysis::analyze_arguments;
use crate::compile::analysis::analyze_call;
use crate::compile::analysis::analyze_leaf;
use crate::compile::analysis::arm_body;
use crate::compile::analysis::call_cost;
use crate::compile::analysis::cost;
use crate::compile::analysis::desugar_cond;
use crate::compile::analysis::fault_at;
use crate::compile::analysis::finish_call;
use crate::compile::analysis::lemma_cost_all_bounds;
use crate::compile::analysis::lemma_desugar_cost;
use crate::compile::analysis::mark_set;
use crate::compile::analysis::passthrough_seed;
use crate::compile::analysis::read_literal;
use crate::compile::analysis::read_literals;
use crate::compile::analysis::unreadable;
use crate::compile::analysis::variable;
use crate::compile::analysis::Arguments;
use crate::compile::analysis::Literal;
use crate::compile::node::nodes_view;
use crate::compile::node::Node;
use crate::compile::node::NodeModel;
use crate::compile::scope::CallableFunction;
use crate::compile::scope::Environment;
use crate::compile::script::parameter_index;
use crate::error::Diagnostic;
use crate::error::DiagnosticModel;
use crate::error::ErrorKind;
use crate::text::concat3;
use crate::text::concat5;
use crate::text::concat7;
use crate::text::decimal_string;
use crate::text::is_real_literal;
use crate::text::lowercase;
use crate::text::parse_long;
use crate::text::parse_short;
use crate::text::str_equal;
use crate::text::to_lowercase;
use crate::token::block;
use crate::token::duplicate_tokens;
use crate::token::leaf;
use crate::token::tokens_view;
use crate::token::Token;
use crate::token::TokenModel;
use crate::types::data_view;
use crate::types::NodeData;
use crate::types::NodeType;
use crate::types::PrimitiveType;
use crate::value_type::ValueType;
use vstd::prelude::*;
use vstd::string::*;

verus! {

/// The value of what an analyzing function returns.
pub open spec fn outcome(r: Result<Node, Diagnostic>) -> Result<NodeModel, DiagnosticModel> {
    match r {
        Ok(n) => Ok(n@),
        Err(d) => Err(d@),
    }
}

/// The values of the tokens from a position on; none where the position
/// lies behind the last.
pub open spec fn rest_of(tokens: Seq<Token>, start: usize) -> Seq<TokenModel> {
    if start <= tokens.len() {
        tokens_view(tokens).subrange(start as int, tokens.len() as int)
    } else {
        Seq::empty()
    }
}

/// A diagnostic at the place of a token.
pub fn fault(token: &Token, kind: ErrorKind, message: String) -> (r: Diagnostic)
    ensures
        r@ == fault_at(token@, kind, message@),
{
    Diagnostic { kind, message, file: token.file, line: token.line, column: token.column }
}

/// The text of a token in lower case.
pub fn lowercase_token(token: &Token) -> (r: String)
    ensures
        r@ == lowercase(token@.string),
{
    to_lowercase(token.string.as_str())
}

fn word(line: usize, column: usize, file: usize, text: &str) -> (r: Token)
    ensures
        r@ == leaf(line, column, file, text@),
{
    Token { line, column, file, string: text.to_owned(), children: None }
}

fn group(line: usize, column: usize, file: usize, children: Vec<Token>) -> (r: Token)
    ensures
        r@ == block(line, column, file, Seq::empty(), tokens_view(children@)),
{
    Token { line, column, file, string: String::new(), children: Some(children) }
}

/// The nested `if` that the arms of a `cond` from position `i` on stand
/// for.
fn desugar(tokens: &Vec<Token>, start: usize, i: usize) -> (r: Result<Token, Diagnostic>)
    requires
        start <= tokens@.len(),
        i < tokens@.len() - start,
    ensures
        match r {
            Ok(t) => desugar_cond(rest_of(tokens@, start), i as int) == Ok::<
                TokenModel,
                DiagnosticModel,
            >(t@),
            Err(d) => desugar_cond(rest_of(tokens@, start), i as int) == Err::<
                TokenModel,
                DiagnosticModel,
            >(d@),
        },
    decreases tokens@.len() - start - i,
{
    let total: usize = tokens.len();
    let arm = &tokens[start + i];
    let ghost arms = rest_of(tokens@, start);
    assert(arms[i as int] == arm@);
    let children = match &arm.children {
        Some(c) => c,
        None => {
            return Err(
                fault(
                    arm,
                    ErrorKind::CondShape,
                    "cond requires each parameter to be (<condition> <expression(s)>)".to_owned(),
                ),
            );
        },
    };
    let ghost c = arm@.children->0;
    assert(c == tokens_view(children@));
    if children.len() < 2 {
        return Err(
            fault(
                arm,
                ErrorKind::CondShape,
                "cond requires each parameter to be (<condition> <expression(s)>)".to_owned(),
            ),
        );
    }
    let first = &children[1];
    assert(c[1] == first@);
    assert(c[0] == children@[0]@);
    let mut body: Vec<Token> = Vec::new();
    let begin = word(first.line, first.column, first.file, "begin");
    body.push(begin);
    let mut expressions = duplicate_tokens(children, 1);
    let ghost expressions_view = tokens_view(expressions@);
    let ghost body_before = body@;
    let ghost expressions_before = expressions@;
    body.append(&mut expressions);
    assert(tokens_view(body@) =~= seq![begin@] + c.subrange(1, c.len() as int)) by {
        assert(body@ =~= body_before + expressions_before);
        assert(forall|j: int|
            0 <= j < expressions_before.len() ==> expressions_view[j]
                == #[trigger] expressions_before[j]@);
    }
    let body_block = group(first.line, first.column, first.file, body);
    assert(body_block@ == arm_body(arm@));
    let mut parts: Vec<Token> = Vec::new();
    let head = word(arm.line, arm.column, arm.file, "if");
    let condition = children[0].duplicate();
    parts.push(head);
    parts.push(condition);
    parts.push(body_block);
    assert(tokens_view(parts@) =~= seq![head@, c[0], arm_body(arm@)]);
    if i + 1 < total - start {
        let rest = desugar(tokens, start, i + 1)?;
        let ghost before = tokens_view(parts@);
        parts.push(rest);
        assert(tokens_view(parts@) =~= before.push(rest@));
    }
    Ok(group(arm.line, arm.column, arm.file, parts))
}

fn make_primitive(token: &Token, name: String, kind: PrimitiveType, value_type: ValueType) -> (r:
    Node)
    ensures
        r@ == crate::compile::analysis::primitive(token@, name@, kind, value_type),
{
    Node {
        value_type,
        node_type: NodeType::Primitive(kind),
        string_data: Some(name),
        data: None,
        index: None,
        parameters: None,
        file: token.file,
        line: token.line,
        column: token.column,
    }
}

fn make_variable(
    token: &Token,
    name: String,
    kind: PrimitiveType,
    declared: ValueType,
    expected: ValueType,
) -> (r: Result<Node, Diagnostic>)
    ensures
        outcome(r) == variable(token@, name@, kind, declared, expected),
{
    if expected == ValueType::Passthrough {
        Ok(make_primitive(token, name, kind, declared))
    } else if declared.can_convert_to(expected) {
        Ok(make_primitive(token, name, kind, expected))
    } else {
        let message = concat7(
            "global '",
            name.as_str(),
            "' is '",
            declared.as_str(),
            "' which cannot convert to '",
            expected.as_str(),
            "'",
        );
        Err(fault(token, ErrorKind::ConvertError, message))
    }
}

/// The node of a word.
pub fn create_node_from_word(token: &Token, expected_type: ValueType, env: &Environment) -> (r:
    Result<Node, Diagnostic>)
    ensures
        outcome(r) == analyze_leaf(token@, expected_type, env@),
{
    let name = lowercase_token(token);
    match parameter_index(name.as_str(), env.locals) {
        Some(n) => {
            assert(env@.locals[n as int] == env.locals@[n as int]@);
            make_variable(token, name, PrimitiveType::Local, env.locals[n].value_type, expected_type)
        },
        None => match env.find_global(name.as_str()) {
            Some(g) => {
                let declared = env.get_value_type(g);
                make_variable(token, name, PrimitiveType::Global, declared, expected_type)
            },
            None => Ok(make_primitive(token, name, PrimitiveType::Static, expected_type)),
        },
    }
}

fn complain(env: &Environment, token: &Token, text: &str, value_type: ValueType, allowed: &str) -> (r:
    Diagnostic)
    ensures
        r@ == unreadable(env@, token@, text@, value_type, allowed@),
{
    let message = match env.find_function(text) {
        Some(_) => concat7(
            "cannot parse token '",
            text,
            "' as ",
            value_type.as_str(),
            " and no global of this name defined; did you mean to call '(",
            text,
            ")' as a function?",
        ),
        None => concat7(
            "cannot parse token '",
            text,
            "' as ",
            value_type.as_str(),
            " and no global of this name defined (expected ",
            allowed,
            ")",
        ),
    };
    fault(token, ErrorKind::BadLiteral, message)
}

/// What reading a literal gives.
pub struct ParsedLiteral {
    pub data: Option<NodeData>,
    pub keeps_text: bool,
}

fn parsed(data: Option<NodeData>, keeps_text: bool) -> (r: Result<ParsedLiteral, Diagnostic>)
    ensures
        r is Ok,
        r->Ok_0.data == data,
        r->Ok_0.keeps_text == keeps_text,
{
    Ok(ParsedLiteral { data, keeps_text })
}

/// The value of what reading a literal returns.
pub open spec fn literal_outcome(r: Result<ParsedLiteral, Diagnostic>) -> Result<
    Literal,
    DiagnosticModel,
> {
    match r {
        Ok(p) => Ok(Literal { data: data_view(p.data), keeps_text: p.keeps_text }),
        Err(d) => Err(d@),
    }
}

fn parse_boolean(env: &Environment, token: &Token, text: &str) -> (r: Result<
    ParsedLiteral,
    Diagnostic,
>)
    ensures
        literal_outcome(r) == read_literal(env@, token@, text@, ValueType::Boolean),
{
    if str_equal(text, "0") || str_equal(text, "false") || str_equal(text, "off") {
        parsed(Some(NodeData::Boolean(false)), false)
    } else if str_equal(text, "1") || str_equal(text, "true") || str_equal(text, "on") {
        parsed(Some(NodeData::Boolean(true)), false)
    } else {
        Err(complain(env, token, text, ValueType::Boolean, "0/1/false/true/off/on"))
    }
}

fn parse_difficulty(env: &Environment, token: &Token, text: &str) -> (r: Result<
    ParsedLiteral,
    Diagnostic,
>)
    ensures
        literal_outcome(r) == read_literal(env@, token@, text@, ValueType::GameDifficulty),
{
    if str_equal(text, "easy") {
        parsed(Some(NodeData::Short(0)), true)
    } else if str_equal(text, "normal") {
        parsed(Some(NodeData::Short(1)), true)
    } else if str_equal(text, "hard") {
        parsed(Some(NodeData::Short(2)), true)
    } else if str_equal(text, "impossible") {
        parsed(Some(NodeData::Short(3)), true)
    } else {
        Err(complain(env, token, text, ValueType::GameDifficulty, "easy/normal/hard/impossible"))
    }
}

fn parse_team(env: &Environment, token: &Token, text: &str) -> (r: Result<
    ParsedLiteral,
    Diagnostic,
>)
    ensures
        literal_outcome(r) == read_literal(env@, token@, text@, ValueType::Team),
{
    if str_equal(text, "default") {
        parsed(Some(NodeData::Short(0)), true)
    } else if str_equal(text, "player") {
        parsed(Some(NodeData::Short(1)), true)
    } else if str_equal(text, "human") {
        parsed(Some(NodeData::Short(2)), true)
    } else if str_equal(text, "covenant") {
        parsed(Some(NodeData::Short(3)), true)
    } else if str_equal(text, "flood") {
        parsed(Some(NodeData::Short(4)), true)
    } else if str_equal(text, "sentinel") {
        parsed(Some(NodeData::Short(5)), true)
    } else if str_equal(text, "unused6") {
        parsed(Some(NodeData::Short(6)), true)
    } else if str_equal(text, "unused7") {
        parsed(Some(NodeData::Short(7)), true)
    } else if str_equal(text, "unused8") {
        parsed(Some(NodeData::Short(8)), true)
    } else if str_equal(text, "unused9") {
        parsed(Some(NodeData::Short(9)), true)
    } else {
        Err(
            complain(
                env,
                token,
                text,
                ValueType::Team,
                "default/player/human/covenant/flood/sentinel/unused6/unused7/unused8/unused9",
            ),
        )
    }
}

/// What a text is as a literal of a type: the parsed value for a boolean,
/// a number, a difficulty or a team; nothing but the text for a script,
/// which must be defined, and for the types that the engine resolves.
pub fn parse_literal(env: &Environment, token: &Token, text: &str, value_type: ValueType) -> (r:
    Result<ParsedLiteral, Diagnostic>)
    ensures
        literal_outcome(r) == read_literal(env@, token@, text@, value_type),
{
    match value_type {
        ValueType::Boolean => parse_boolean(env, token, text),
        ValueType::Short => match parse_short(text) {
            Some(v) => parsed(Some(NodeData::Short(v)), false),
            None => Err(complain(env, token, text, value_type, "integer between [-32768,32767]")),
        },
        ValueType::Long => match parse_long(text) {
            Some(v) => parsed(Some(NodeData::Long(v)), false),
            None => Err(
                complain(env, token, text, value_type, "integer between [-2147483648,2147483647]"),
            ),
        },
        ValueType::Real => if is_real_literal(text) {
            parsed(Some(NodeData::Real(text.to_owned())), false)
        } else {
            Err(complain(env, token, text, value_type, "numeric value"))
        },
        ValueType::GameDifficulty => parse_difficulty(env, token, text),
        ValueType::Team => parse_team(env, token, text),
        ValueType::Script => match env.find_function(text) {
            Some(CallableFunction::Script(_)) => parsed(None, true),
            Some(CallableFunction::Engine(_)) => {
                let message = concat3(
                    "no script '",
                    text,
                    "' defined (a function is defined by this name, but it cannot be used here)",
                );
                Err(fault(token, ErrorKind::BadLiteral, message))
            },
            None => Err(complain(env, token, text, value_type, "script name")),
        },
        ValueType::Void | ValueType::Passthrough | ValueType::SpecialForm => Err(
            complain(env, token, text, value_type, "function call or global"),
        ),
        _ => parsed(None, true),
    }
}

fn seed(
    env: &Environment,
    name: &str,
    call_token: &Token,
    tokens: &Vec<Token>,
    start: usize,
    declared: ValueType,
    final_type: ValueType,
) -> (r: Result<Option<ValueType>, Diagnostic>)
    requires
        start <= tokens@.len(),
    ensures
        match r {
            Ok(s) => passthrough_seed(
                env@,
                name@,
                call_token@,
                rest_of(tokens@, start),
                declared,
                final_type,
            ) == Ok::<Option<ValueType>, DiagnosticModel>(s),
            Err(d) => passthrough_seed(
                env@,
                name@,
                call_token@,
                rest_of(tokens@, start),
                declared,
                final_type,
            ) == Err::<Option<ValueType>, DiagnosticModel>(d@),
        },
{
    if str_equal(name, "set") {
        if start >= tokens.len() {
            return Err(
                fault(
                    call_token,
                    ErrorKind::SetOnNonGlobal,
                    "function 'set' requires a name of a variable".to_owned(),
                ),
            );
        }
        let target = &tokens[start];
        assert(rest_of(tokens@, start)[0] == target@);
        if target.children.is_some() {
            return Err(
                fault(
                    call_token,
                    ErrorKind::SetOnNonGlobal,
                    "function 'set' cannot take a block as the variable name".to_owned(),
                ),
            );
        }
        let variable_name = lowercase_token(target);
        match env.find_global(variable_name.as_str()) {
            Some(g) => Ok(Some(env.get_value_type(g))),
            None => {
                let message = concat3(
                    "parameter '",
                    variable_name.as_str(),
                    "' is not a global variable name",
                );
                Err(fault(call_token, ErrorKind::SetOnNonGlobal, message))
            },
        }
    } else if declared == ValueType::Passthrough && final_type != declared {
        Ok(Some(final_type))
    } else {
        Ok(None)
    }
}

#[verifier::loop_isolation(false)]
fn finish(
    env: &Environment,
    f: CallableFunction,
    name: &str,
    call_token: &Token,
    final_type: ValueType,
    tokens: &Vec<Token>,
    start: usize,
    nodes: Vec<Node>,
    passthrough: Option<ValueType>,
) -> (r: Result<Node, Diagnostic>)
    requires
        start <= tokens@.len(),
        env@.has(f),
    ensures
        outcome(r) == finish_call(
            env@,
            f,
            name@,
            call_token@,
            final_type,
            rest_of(tokens@, start),
            Arguments { nodes: nodes_view(nodes@), passthrough },
        ),
{
    let ghost args = rest_of(tokens@, start);
    let ghost given = nodes_view(nodes@);
    let mut nodes = nodes;
    let resolved = match passthrough {
        Some(t) => t,
        None => ValueType::Real,
    };
    let numeric = resolved.can_convert_to(ValueType::Real);
    if env.is_number_passthrough(f) && !numeric {
        let message = concat5(
            "passthrough parameters resolve to '",
            resolved.as_str(),
            "', but function '",
            name,
            "' takes only numeric parameters",
        );
        return Err(fault(call_token, ErrorKind::PassthroughTypeMismatch, message));
    }
    if env.is_inequality(f) && !(numeric || resolved == ValueType::GameDifficulty || resolved
        == ValueType::Team) {
        let message = concat5(
            "passthrough parameters resolve to '",
            resolved.as_str(),
            "', but function '",
            name,
            "' is an inequality operator",
        );
        return Err(fault(call_token, ErrorKind::PassthroughTypeMismatch, message));
    }
    if str_equal(name, "set") && nodes.len() > 0 {
        let ghost before = nodes@;
        nodes[0].index = Some(0xFFFF);
        assert(nodes_view(nodes@) =~= mark_set(name@, given)) by {
            assert(forall|j: int| 1 <= j < nodes@.len() ==> nodes@[j] == before[j]);
        }
    }
    let ghost marked = nodes_view(nodes@);
    assert(marked == mark_set(name@, given));
    let ghost goal = finish_call(
        env@,
        f,
        name@,
        call_token@,
        final_type,
        args,
        Arguments { nodes: given, passthrough },
    );
    let count: usize = tokens.len() - start;
    let mut i: usize = 0;
    while i < nodes.len() && i < count
        invariant
            start <= tokens@.len() <= usize::MAX,
            count == tokens@.len() - start,
            env@.has(f),
            args == rest_of(tokens@, start),
            goal == match read_literals(env@, f, args, marked, 0, resolved) {
                Err(d) => Err::<NodeModel, DiagnosticModel>(d),
                Ok(read) => Ok::<NodeModel, DiagnosticModel>(
                    NodeModel {
                        value_type: final_type,
                        node_type: NodeType::FunctionCall(f is Engine),
                        string_data: Some(name@),
                        data: None,
                        index: None,
                        parameters: Some(read),
                        file: call_token@.file,
                        line: call_token@.line,
                        column: call_token@.column,
                    },
                ),
            },
            read_literals(env@, f, args, marked, 0, resolved) == read_literals(
                env@,
                f,
                args,
                nodes_view(nodes@),
                i as int,
                resolved,
            ),
        decreases nodes@.len() - i,
    {
        let ghost before = nodes@;
        assert(nodes_view(before)[i as int] == before[i as int]@);
        if nodes[i].node_type.is_static_value() {
            let token = &tokens[start + i];
            assert(args[i as int] == token@);
            let text = if env.is_uppercase_allowed_for_parameter(f, i) {
                token.string.clone()
            } else {
                lowercase_token(token)
            };
            let value_type = if nodes[i].value_type == ValueType::Passthrough {
                resolved
            } else {
                nodes[i].value_type
            };
            let literal = parse_literal(env, token, text.as_str(), value_type)?;
            let ghost kept = text@;
            nodes[i].value_type = value_type;
            nodes[i].data = literal.data;
            nodes[i].string_data = if literal.keeps_text {
                Some(text)
            } else {
                None
            };
            assert(nodes_view(nodes@) =~= nodes_view(before).update(
                i as int,
                NodeModel {
                    value_type,
                    data: data_view(literal.data),
                    string_data: if literal.keeps_text {
                        Some(kept)
                    } else {
                        None
                    },
                    ..before[i as int]@
                },
            )) by {
                assert(forall|j: int|
                    0 <= j < nodes@.len() && j != i ==> nodes@[j] == before[j]);
            }
        }
        i += 1;
    }
    Ok(
        Node {
            value_type: final_type,
            node_type: NodeType::FunctionCall(f.is_engine_function()),
            string_data: Some(name.to_owned()),
            data: None,
            index: None,
            parameters: Some(nodes),
            file: call_token.file,
            line: call_token.line,
            column: call_token.column,
        },
    )
}

/// The node of a token that is expected to be of a type.
pub fn create_node_from_tokens(token: &Token, expected_type: ValueType, env: &Environment) -> (r:
    Result<Node, Diagnostic>)
    ensures
        outcome(r) == analyze(token@, expected_type, env@),
    decreases cost(token@), 0nat,
{
    match &token.children {
        Some(children) => {
            if children.len() == 0 {
                return Err(fault(token, ErrorKind::EmptyBlock, "empty block".to_owned()));
            }
            let name = lowercase_token(&children[0]);
            let ghost c = tokens_view(children@);
            assert(c[0] == children@[0]@);
            assert(c.drop_first() =~= c.subrange(1, c.len() as int));
            create_node_from_function(name.as_str(), token, expected_type, children, 1, env)
        },
        None => create_node_from_word(token, expected_type, env),
    }
}

/// The node of a call of `function_name` whose arguments are the tokens
/// from `start` on, at the place of `function_call_token`.
#[verifier::loop_isolation(false)]
pub fn create_node_from_function(
    function_name: &str,
    function_call_token: &Token,
    expected_type: ValueType,
    tokens: &Vec<Token>,
    start: usize,
    env: &Environment,
) -> (r: Result<Node, Diagnostic>)
    ensures
        outcome(r) == analyze_call(
            function_name@,
            function_call_token@,
            expected_type,
            rest_of(tokens@, start),
            env@,
        ),
    decreases call_cost(function_name@, rest_of(tokens@, start)), 0nat,
{
    let ghost given = rest_of(tokens@, start);
    let start: usize = if start <= tokens.len() {
        start
    } else {
        tokens.len()
    };
    let ghost args = rest_of(tokens@, start);
    assert(args =~= given);
    let count: usize = tokens.len() - start;
    if str_equal(function_name, "cond") {
        if count == 0 {
            return Err(
                fault(
                    function_call_token,
                    ErrorKind::CondShape,
                    "cond requires at least one set of expressions".to_owned(),
                ),
            );
        }
        let tree = desugar(tokens, start, 0)?;
        proof {
            lemma_desugar_cost(args, 0);
            assert(args.subrange(0, args.len() as int) =~= args);
        }
        return create_node_from_tokens(&tree, expected_type, env);
    }
    let f = match env.find_function(function_name) {
        Some(f) => f,
        None => {
            let message = concat3("function '", function_name, "' is not defined");
            return Err(fault(function_call_token, ErrorKind::UnknownFunction, message));
        },
    };
    let minimum = env.get_minimum_parameter_count(f);
    let declared = env.get_return_type(f);
    let final_type = if declared == ValueType::Passthrough && expected_type
        != ValueType::Passthrough {
        expected_type
    } else {
        declared
    };
    if count < minimum {
        let minimum_text = decimal_string(minimum);
        let count_text = decimal_string(count);
        let message = concat7(
            "function '",
            function_name,
            "' takes at least ",
            minimum_text.as_str(),
            " parameter(s), got ",
            count_text.as_str(),
            " instead",
        );
        return Err(fault(function_call_token, ErrorKind::TooFewArgs, message));
    }
    if expected_type != ValueType::Passthrough && !final_type.can_convert_to(expected_type) {
        let message = concat7(
            "function '",
            function_name,
            "' returns '",
            final_type.as_str(),
            "' which cannot convert to '",
            expected_type.as_str(),
            "'",
        );
        return Err(fault(function_call_token, ErrorKind::ConvertError, message));
    }
    let first = seed(env, function_name, function_call_token, tokens, start, declared, final_type)?;
    let last_only = env.is_passthrough_last(f);
    let mut nodes: Vec<Node> = Vec::new();
    let mut passthrough = first;
    let mut i: usize = 0;
    assert(nodes_view(nodes@) =~= Seq::empty());
    let ghost goal = analyze_call(function_name@, function_call_token@, expected_type, args, env@);
    while i < count
        invariant
            i <= count,
            start <= tokens@.len() <= usize::MAX,
            count == tokens@.len() - start,
            goal == match analyze_arguments(
                env@,
                f,
                function_name@,
                args,
                0,
                Arguments { nodes: Seq::empty(), passthrough: first },
            ) {
                Err(d) => Err::<NodeModel, DiagnosticModel>(d),
                Ok(arguments) => finish_call(
                    env@,
                    f,
                    function_name@,
                    function_call_token@,
                    final_type,
                    args,
                    arguments,
                ),
            },
            args == rest_of(tokens@, start),
            env@.has(f),
            last_only == env@.passthrough_last(f),
            function_name@ != "cond"@,
            analyze_arguments(
                env@,
                f,
                function_name@,
                args,
                0,
                Arguments { nodes: Seq::empty(), passthrough: first },
            ) == analyze_arguments(
                env@,
                f,
                function_name@,
                args,
                i as int,
                Arguments { nodes: nodes_view(nodes@), passthrough },
            ),
        decreases count - i,
    {
        let token = &tokens[start + i];
        assert(args[i as int] == token@);
        let declared_here = match env.get_type_of_parameter(f, i) {
            Some(t) => t,
            None => {
                let total_text = decimal_string(env.get_total_parameter_count(f));
                let message = concat5(
                    "function '",
                    function_name,
                    "' takes at most ",
                    total_text.as_str(),
                    " parameter(s) but extraneous parameter(s) were given",
                );
                return Err(fault(token, ErrorKind::TooManyArgs, message));
            },
        };
        let is_last = i + 1 == count;
        let discovering = declared_here == ValueType::Passthrough && !(last_only && !is_last)
            && passthrough.is_none();
        let expected_here = if declared_here != ValueType::Passthrough {
            declared_here
        } else if last_only && !is_last {
            ValueType::Void
        } else {
            match passthrough {
                Some(t) => t,
                None => ValueType::Passthrough,
            }
        };
        proof {
            lemma_cost_all_bounds(args, i as int);
        }
        let node = create_node_from_tokens(token, expected_here, env)?;
        if discovering && node.value_type != ValueType::Passthrough {
            passthrough = Some(node.value_type);
        }
        let ghost before = nodes_view(nodes@);
        nodes.push(node);
        assert(nodes_view(nodes@) =~= before.push(node@));
        i += 1;
    }
    finish(env, f, function_name, function_call_token, final_type, tokens, start, nodes, passthrough)
}

} // verus!
