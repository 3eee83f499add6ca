//! The top level of a script file: each block defines a global or a script.
//!
//! A global reads `(global <type> <name> <expression>)`. A script reads
//! `(script <kind> [<type>] <name> <expression(s)>)`, where the type is
//! left out for the kinds that return nothing, and where `<name>` may be a
//! block `(<name> (<type> <name>) ...)` that declares parameters.

use crate::compile::analysis::fault_at;
use crate::compile::analyze::fault;
use crate::compile::analyze::lowercase_token;
use crate::compile::node::blank_node;
use crate::compile::node::Node;
use crate::compile::script::parameters_view;
use crate::compile::script::Global;
use crate::compile::script::GlobalModel;
use crate::compile::script::Script;
use crate::compile::script::ScriptModel;
use crate::compile::script::ScriptParameter;
use crate::compile::script::ScriptParameterModel;
use crate::error::Diagnostic;
use crate::error::DiagnosticModel;
use crate::error::ErrorKind;
use crate::text::concat3;
use crate::text::concat5;
use crate::text::decimal;
use crate::text::decimal_string;
use crate::text::lowercase;
use crate::text::str_equal;
use crate::token::tokens_view;
use crate::token::Token;
use crate::token::TokenModel;
use crate::types::CompileTarget;
use crate::types::ScriptType;
use crate::value_type::ValueType;
use vstd::prelude::*;
use vstd::string::*;

verus! {

/// What a top-level block defines.
#[derive(Debug)]
pub enum Definition {
    Global(Global),
    Script(Script),
}

/// The value of a `Definition`.
pub enum DefinitionModel {
    Global(GlobalModel),
    Script(ScriptModel),
}

impl View for Definition {
    type V = DefinitionModel;

    open spec fn view(&self) -> DefinitionModel {
        match self {
            Definition::Global(g) => DefinitionModel::Global(g@),
            Definition::Script(s) => DefinitionModel::Script(s@),
        }
    }
}

/// The message for a global definition with too few parts.
pub open spec fn incomplete_global_message() -> Seq<char> {
    "incomplete global definition, expected (global <type> <name> <expression>)"@
}

/// The message for a global definition with too many parts.
pub open spec fn extraneous_token_message() -> Seq<char> {
    "extraneous token in global definition (note: globals do not have implicit begin blocks)"@
}

/// The message for a global whose name is a block.
pub open spec fn global_name_message() -> Seq<char> {
    "expected global name, got a block instead"@
}

/// The message for a global of a type that may not be declared.
pub open spec fn undefinable_global_message(name: Seq<char>) -> Seq<char> {
    "cannot define '"@ + name + "' globals"@
}

/// The message for a global of an unknown type.
pub open spec fn global_type_message(name: Seq<char>) -> Seq<char> {
    "expected global value type, got '"@ + name + "' instead"@
}

/// The message for a script definition without a kind.
pub open spec fn missing_kind_message() -> Seq<char> {
    "incomplete script definition, expected script type after 'script'"@
}

/// The message for a script of an unknown kind.
pub open spec fn script_kind_message(name: Seq<char>) -> Seq<char> {
    "expected script type, got '"@ + name + "' instead"@
}

/// The message for a script definition with too few parts.
pub open spec fn incomplete_script_message(kind: ScriptType) -> Seq<char> {
    "incomplete script definition, expected (script "@ + kind.keyword() + if kind.returns_void() {
        ""@
    } else {
        " <return type>"@
    } + " <name> <expression(s)>)"@
}

/// The message for parameters on a target that has none.
pub open spec fn parameters_unsupported_message(target: CompileTarget) -> Seq<char> {
    "function parameters are not supported in "@ + target.title()
}

/// The message for parameters on a kind of script that takes none.
pub open spec fn parameters_not_allowed_message() -> Seq<char> {
    "script parameters can only be used in static or stub functions"@
}

/// The message for a script whose name is a block.
pub open spec fn script_name_message() -> Seq<char> {
    "expected script name, got a block instead"@
}

/// The message for a script with more parameters than the target takes.
pub open spec fn too_many_parameters_message(target: CompileTarget) -> Seq<char> {
    "only "@ + decimal(target.script_parameter_limit() as nat)
        + " script parameter(s) are supported in "@ + target.title()
}

/// The message for a word where a parameter should stand.
pub open spec fn expected_parameter_message() -> Seq<char> {
    "expected script parameter"@
}

/// The message for a parameter of another shape than `(<type> <name>)`.
pub open spec fn parameter_format_message() -> Seq<char> {
    "script parameters should be in (<type> <name>) format"@
}

/// The message for a parameter of an unknown type.
pub open spec fn parameter_type_message(name: Seq<char>) -> Seq<char> {
    "expected parameter type, got "@ + name
}

/// The message for a script that is named like a built-in form.
pub open spec fn reserved_name_message(name: Seq<char>) -> Seq<char> {
    "function '"@ + name + "' cannot be overridden by a script"@
}

/// The message for a script of a return type that may not be declared.
pub open spec fn undefinable_script_message(name: Seq<char>) -> Seq<char> {
    "cannot define '"@ + name + "' scripts"@
}

/// The message for a script of an unknown return type.
pub open spec fn script_type_message(name: Seq<char>) -> Seq<char> {
    "expected script return value type, got '"@ + name + "' instead"@
}

/// The message for a top-level block that defines nothing.
pub open spec fn unexpected_form_message(name: Seq<char>) -> Seq<char> {
    "expected 'global' or 'script', got '"@ + name + "' instead"@
}

/// Whether a name belongs to a built-in form that no script may replace.
pub open spec fn is_reserved(name: Seq<char>) -> bool {
    name == "begin"@ || name == "if"@ || name == "cond"@
}

/// The type that a token declares for a global or a script, given the
/// messages for a type that may not be declared and for an unknown one.
pub open spec fn declared_type(token: TokenModel, kind: ErrorKind, for_script: bool) -> Result<
    ValueType,
    DiagnosticModel,
> {
    let name = lowercase(token.string);
    match ValueType::from_underscore_name(name) {
        Some(ValueType::Passthrough) => Err(
            fault_at(
                token,
                kind,
                if for_script {
                    undefinable_script_message(name)
                } else {
                    undefinable_global_message(name)
                },
            ),
        ),
        Some(t) => Ok(t),
        None => Err(
            fault_at(
                token,
                kind,
                if for_script {
                    script_type_message(name)
                } else {
                    global_type_message(name)
                },
            ),
        ),
    }
}

/// The global that a block beginning with `global` defines.
pub open spec fn classify_global(token: TokenModel, children: Seq<TokenModel>) -> Result<
    GlobalModel,
    DiagnosticModel,
> {
    if children.len() < 4 {
        Err(fault_at(token, ErrorKind::IncompleteGlobal, incomplete_global_message()))
    } else if children.len() > 4 {
        Err(fault_at(children[4], ErrorKind::ExtraneousToken, extraneous_token_message()))
    } else if children[2].children is Some {
        Err(fault_at(children[2], ErrorKind::ExpectedGlobalName, global_name_message()))
    } else {
        match declared_type(children[1], ErrorKind::BadGlobalType, false) {
            Err(d) => Err(d),
            Ok(value_type) => Ok(
                GlobalModel {
                    name: lowercase(children[2].string),
                    value_type,
                    original_token: token,
                    node: blank_node(),
                },
            ),
        }
    }
}

/// The parameter that a block `(<type> <name>)` declares.
pub open spec fn classify_parameter(p: TokenModel) -> Result<ScriptParameterModel, DiagnosticModel> {
    match p.children {
        None => Err(fault_at(p, ErrorKind::BadScriptParameter, expected_parameter_message())),
        Some(c) => if c.len() != 2 || c[0].children is Some || c[1].children is Some {
            Err(fault_at(p, ErrorKind::BadScriptParameter, parameter_format_message()))
        } else {
            match ValueType::from_underscore_name(lowercase(c[0].string)) {
                None => Err(
                    fault_at(
                        p,
                        ErrorKind::BadScriptParameter,
                        parameter_type_message(lowercase(c[0].string)),
                    ),
                ),
                Some(value_type) => Ok(
                    ScriptParameterModel {
                        name: lowercase(c[1].string),
                        value_type,
                        original_token: c[1],
                    },
                ),
            }
        },
    }
}

/// The parameters that the blocks from position `i` on declare, after
/// those read so far.
pub open spec fn classify_parameters(
    c: Seq<TokenModel>,
    i: int,
    so_far: Seq<ScriptParameterModel>,
) -> Result<Seq<ScriptParameterModel>, DiagnosticModel>
    decreases c.len() - i,
{
    if i < 0 || i >= c.len() {
        Ok(so_far)
    } else {
        match classify_parameter(c[i]) {
            Err(d) => Err(d),
            Ok(p) => classify_parameters(c, i + 1, so_far.push(p)),
        }
    }
}

/// The name and the parameters of a script.
pub struct Signature {
    pub name: Seq<char>,
    pub parameters: Seq<ScriptParameterModel>,
}

/// The name and the parameters that the name token of a script declares.
/// Parameters need a target that has them and a static or stub script.
pub open spec fn classify_signature(
    name_token: TokenModel,
    kind: ScriptType,
    target: CompileTarget,
) -> Result<Signature, DiagnosticModel> {
    match name_token.children {
        None => Ok(Signature { name: lowercase(name_token.string), parameters: Seq::empty() }),
        Some(c) => if target.script_parameter_limit() == 0 {
            Err(
                fault_at(
                    name_token,
                    ErrorKind::ScriptParametersUnsupported,
                    parameters_unsupported_message(target),
                ),
            )
        } else if kind != ScriptType::Static && kind != ScriptType::Stub {
            Err(
                fault_at(
                    name_token,
                    ErrorKind::ScriptParametersNotAllowed,
                    parameters_not_allowed_message(),
                ),
            )
        } else if c.len() == 0 {
            Err(fault_at(name_token, ErrorKind::ExpectedScriptName, script_name_message()))
        } else if c[0].children is Some {
            Err(fault_at(c[0], ErrorKind::ExpectedScriptName, script_name_message()))
        } else if c.len() - 1 > target.script_parameter_limit() {
            Err(
                fault_at(
                    c[0],
                    ErrorKind::TooManyScriptParameters,
                    too_many_parameters_message(target),
                ),
            )
        } else {
            match classify_parameters(c, 1, Seq::empty()) {
                Err(d) => Err(d),
                Ok(parameters) => Ok(Signature { name: lowercase(c[0].string), parameters }),
            }
        },
    }
}

/// The script that a block beginning with `script` defines.
pub open spec fn classify_script(
    token: TokenModel,
    children: Seq<TokenModel>,
    target: CompileTarget,
) -> Result<ScriptModel, DiagnosticModel> {
    if children.len() < 2 {
        Err(fault_at(token, ErrorKind::IncompleteScript, missing_kind_message()))
    } else {
        let kind_name = lowercase(children[1].string);
        match ScriptType::from_keyword(kind_name) {
            None => Err(
                fault_at(children[1], ErrorKind::BadScriptKind, script_kind_message(kind_name)),
            ),
            Some(kind) => if children.len() < kind.body_offset() + 1 {
                Err(fault_at(token, ErrorKind::IncompleteScript, incomplete_script_message(kind)))
            } else {
                let name_token = children[kind.body_offset() - 1];
                match classify_signature(name_token, kind, target) {
                    Err(d) => Err(d),
                    Ok(signature) => if is_reserved(signature.name) {
                        Err(
                            fault_at(
                                name_token,
                                ErrorKind::ScriptNameReserved,
                                reserved_name_message(signature.name),
                            ),
                        )
                    } else {
                        match if kind.returns_void() {
                            Ok(ValueType::Void)
                        } else {
                            declared_type(children[2], ErrorKind::BadScriptReturnType, true)
                        } {
                            Err(d) => Err(d),
                            Ok(return_type) => Ok(
                                ScriptModel {
                                    name: signature.name,
                                    return_type,
                                    script_type: kind,
                                    original_token: token,
                                    node: blank_node(),
                                    parameters: signature.parameters,
                                },
                            ),
                        }
                    },
                }
            },
        }
    }
}

/// What a top-level token defines.
pub open spec fn classify(token: TokenModel, target: CompileTarget) -> Result<
    DefinitionModel,
    DiagnosticModel,
> {
    match token.children {
        None => Err(
            fault_at(
                token,
                ErrorKind::ExpectedGlobalOrScript,
                unexpected_form_message(lowercase(token.string)),
            ),
        ),
        Some(children) => if children.len() == 0 {
            Err(fault_at(token, ErrorKind::EmptyBlock, "empty block"@))
        } else {
            let head = lowercase(children[0].string);
            if head == "global"@ {
                match classify_global(token, children) {
                    Err(d) => Err(d),
                    Ok(g) => Ok(DefinitionModel::Global(g)),
                }
            } else if head == "script"@ {
                match classify_script(token, children, target) {
                    Err(d) => Err(d),
                    Ok(s) => Ok(DefinitionModel::Script(s)),
                }
            } else {
                Err(
                    fault_at(
                        children[0],
                        ErrorKind::ExpectedGlobalOrScript,
                        unexpected_form_message(head),
                    ),
                )
            }
        },
    }
}

/// The scripts and the globals of a file, each list in the order of the
/// file.
pub struct Classification {
    pub scripts: Seq<ScriptModel>,
    pub globals: Seq<GlobalModel>,
}

/// What the top-level tokens from position `i` on define, after what was
/// read so far.
pub open spec fn classify_all(
    tokens: Seq<TokenModel>,
    target: CompileTarget,
    i: int,
    so_far: Classification,
) -> Result<Classification, DiagnosticModel>
    decreases tokens.len() - i,
{
    if i < 0 || i >= tokens.len() {
        Ok(so_far)
    } else {
        match classify(tokens[i], target) {
            Err(d) => Err(d),
            Ok(DefinitionModel::Global(g)) => classify_all(
                tokens,
                target,
                i + 1,
                Classification { globals: so_far.globals.push(g), ..so_far },
            ),
            Ok(DefinitionModel::Script(s)) => classify_all(
                tokens,
                target,
                i + 1,
                Classification { scripts: so_far.scripts.push(s), ..so_far },
            ),
        }
    }
}

fn read_declared_type(token: &Token, kind: ErrorKind, for_script: bool) -> (r: Result<
    ValueType,
    Diagnostic,
>)
    ensures
        match r {
            Ok(t) => declared_type(token@, kind, for_script) == Ok::<ValueType, DiagnosticModel>(t),
            Err(d) => declared_type(token@, kind, for_script) == Err::<ValueType, DiagnosticModel>(
                d@,
            ),
        },
{
    let name = lowercase_token(token);
    match ValueType::from_str_underscore(name.as_str()) {
        Some(ValueType::Passthrough) => {
            let message = if for_script {
                concat3("cannot define '", name.as_str(), "' scripts")
            } else {
                concat3("cannot define '", name.as_str(), "' globals")
            };
            Err(fault(token, kind, message))
        },
        Some(t) => Ok(t),
        None => {
            let message = if for_script {
                concat3("expected script return value type, got '", name.as_str(), "' instead")
            } else {
                concat3("expected global value type, got '", name.as_str(), "' instead")
            };
            Err(fault(token, kind, message))
        },
    }
}

fn read_global(token: Token) -> (r: Result<Global, Diagnostic>)
    requires
        token.children is Some,
    ensures
        match r {
            Ok(g) => classify_global(token@, token@.children->0) == Ok::<
                GlobalModel,
                DiagnosticModel,
            >(g@),
            Err(d) => classify_global(token@, token@.children->0) == Err::<
                GlobalModel,
                DiagnosticModel,
            >(d@),
        },
{
    let ghost whole = token@;
    let (name, value_type) = {
        let children = match &token.children {
            Some(c) => c,
            None => {
                return Err(fault(&token, ErrorKind::IncompleteGlobal, String::new()));
            },
        };
        let ghost c = tokens_view(children@);
        assert(c == whole.children->0);
        if children.len() < 4 {
            return Err(
                fault(
                    &token,
                    ErrorKind::IncompleteGlobal,
                    "incomplete global definition, expected (global <type> <name> <expression>)".to_owned(),
                ),
            );
        }
        assert(c[1] == children@[1]@);
        assert(c[2] == children@[2]@);
        if children.len() > 4 {
            assert(c[4] == children@[4]@);
            return Err(
                fault(
                    &children[4],
                    ErrorKind::ExtraneousToken,
                    "extraneous token in global definition (note: globals do not have implicit begin blocks)".to_owned(),
                ),
            );
        }
        let name_token = &children[2];
        if name_token.children.is_some() {
            return Err(
                fault(
                    name_token,
                    ErrorKind::ExpectedGlobalName,
                    "expected global name, got a block instead".to_owned(),
                ),
            );
        }
        let value_type = read_declared_type(&children[1], ErrorKind::BadGlobalType, false)?;
        (lowercase_token(name_token), value_type)
    };
    Ok(Global { name, value_type, original_token: token, node: Node::default() })
}

fn read_parameter(p: &Token) -> (r: Result<ScriptParameter, Diagnostic>)
    ensures
        match r {
            Ok(x) => classify_parameter(p@) == Ok::<ScriptParameterModel, DiagnosticModel>(x@),
            Err(d) => classify_parameter(p@) == Err::<ScriptParameterModel, DiagnosticModel>(d@),
        },
{
    let children = match &p.children {
        Some(c) => c,
        None => {
            return Err(
                fault(p, ErrorKind::BadScriptParameter, "expected script parameter".to_owned()),
            );
        },
    };
    let ghost c = tokens_view(children@);
    if children.len() != 2 {
        return Err(
            fault(
                p,
                ErrorKind::BadScriptParameter,
                "script parameters should be in (<type> <name>) format".to_owned(),
            ),
        );
    }
    assert(c[0] == children@[0]@);
    assert(c[1] == children@[1]@);
    if children[0].children.is_some() || children[1].children.is_some() {
        return Err(
            fault(
                p,
                ErrorKind::BadScriptParameter,
                "script parameters should be in (<type> <name>) format".to_owned(),
            ),
        );
    }
    let declared_name = lowercase_token(&children[0]);
    let value_type = match ValueType::from_str_underscore(declared_name.as_str()) {
        Some(t) => t,
        None => {
            let message = crate::text::concat2(
                "expected parameter type, got ",
                declared_name.as_str(),
            );
            return Err(fault(p, ErrorKind::BadScriptParameter, message));
        },
    };
    Ok(
        ScriptParameter {
            name: lowercase_token(&children[1]),
            value_type,
            original_token: children[1].duplicate(),
        },
    )
}

/// The name and the parameters of a script.
struct Header {
    name: String,
    parameters: Vec<ScriptParameter>,
}

#[verifier::loop_isolation(false)]
fn read_signature(name_token: &Token, kind: ScriptType, target: CompileTarget) -> (r: Result<
    Header,
    Diagnostic,
>)
    ensures
        match r {
            Ok(h) => classify_signature(name_token@, kind, target) == Ok::<
                Signature,
                DiagnosticModel,
            >(Signature { name: h.name@, parameters: parameters_view(h.parameters@) }),
            Err(d) => classify_signature(name_token@, kind, target) == Err::<
                Signature,
                DiagnosticModel,
            >(d@),
        },
{
    let mut parameters: Vec<ScriptParameter> = Vec::new();
    assert(parameters_view(parameters@) =~= Seq::empty());
    let c = match &name_token.children {
        Some(c) => c,
        None => {
            return Ok(Header { name: lowercase_token(name_token), parameters });
        },
    };
    let ghost cv = tokens_view(c@);
    let limit = target.maximum_script_parameters();
    if limit == 0 {
        let message = crate::text::concat2(
            "function parameters are not supported in ",
            target.as_str(),
        );
        return Err(fault(name_token, ErrorKind::ScriptParametersUnsupported, message));
    }
    if kind != ScriptType::Static && kind != ScriptType::Stub {
        return Err(
            fault(
                name_token,
                ErrorKind::ScriptParametersNotAllowed,
                "script parameters can only be used in static or stub functions".to_owned(),
            ),
        );
    }
    if c.len() == 0 {
        return Err(
            fault(
                name_token,
                ErrorKind::ExpectedScriptName,
                "expected script name, got a block instead".to_owned(),
            ),
        );
    }
    let inner = &c[0];
    assert(cv[0] == inner@);
    if inner.children.is_some() {
        return Err(
            fault(
                inner,
                ErrorKind::ExpectedScriptName,
                "expected script name, got a block instead".to_owned(),
            ),
        );
    }
    if c.len() - 1 > limit {
        let limit_text = decimal_string(limit);
        let message = concat5(
            "only ",
            limit_text.as_str(),
            " script parameter(s) are supported in ",
            target.as_str(),
            "",
        );
        proof {
            reveal_strlit("");
            assert(message@ =~= crate::compile::classify::too_many_parameters_message(target));
        }
        return Err(fault(inner, ErrorKind::TooManyScriptParameters, message));
    }
    let mut i: usize = 1;
    while i < c.len()
        invariant
            1 <= i <= c@.len(),
            classify_parameters(cv, 1, Seq::empty()) == classify_parameters(
                cv,
                i as int,
                parameters_view(parameters@),
            ),
        decreases c@.len() - i,
    {
        assert(cv[i as int] == c@[i as int]@);
        let p = read_parameter(&c[i])?;
        let ghost before = parameters_view(parameters@);
        parameters.push(p);
        assert(parameters_view(parameters@) =~= before.push(p@));
        i += 1;
    }
    Ok(Header { name: lowercase_token(inner), parameters })
}

fn read_script(token: Token, target: CompileTarget) -> (r: Result<Script, Diagnostic>)
    requires
        token.children is Some,
    ensures
        match r {
            Ok(s) => classify_script(token@, token@.children->0, target) == Ok::<
                ScriptModel,
                DiagnosticModel,
            >(s@),
            Err(d) => classify_script(token@, token@.children->0, target) == Err::<
                ScriptModel,
                DiagnosticModel,
            >(d@),
        },
{
    let ghost whole = token@;
    let (header, kind, return_type) = {
        let children = match &token.children {
            Some(c) => c,
            None => {
                return Err(fault(&token, ErrorKind::IncompleteScript, String::new()));
            },
        };
        let ghost c = tokens_view(children@);
        assert(c == whole.children->0);
        if children.len() < 2 {
            return Err(
                fault(
                    &token,
                    ErrorKind::IncompleteScript,
                    "incomplete script definition, expected script type after 'script'".to_owned(),
                ),
            );
        }
        assert(c[1] == children@[1]@);
        let kind_name = lowercase_token(&children[1]);
        let kind = match ScriptType::from_str(kind_name.as_str()) {
            Some(k) => k,
            None => {
                let message = concat3("expected script type, got '", kind_name.as_str(), "' instead");
                return Err(fault(&children[1], ErrorKind::BadScriptKind, message));
            },
        };
        let offset = kind.expression_offset();
        if children.len() < offset + 1 {
            let message = concat5(
                "incomplete script definition, expected (script ",
                kind.as_str(),
                if kind.always_returns_void() {
                    ""
                } else {
                    " <return type>"
                },
                " <name> <expression(s)>)",
                "",
            );
            proof {
                reveal_strlit("");
                assert(message@ =~= incomplete_script_message(kind));
            }
            return Err(fault(&token, ErrorKind::IncompleteScript, message));
        }
        let name_token = &children[offset - 1];
        assert(c[offset - 1] == name_token@);
        assert(c[2] == children@[2]@);
        let header = read_signature(name_token, kind, target)?;
        if str_equal(header.name.as_str(), "begin") || str_equal(header.name.as_str(), "if")
            || str_equal(header.name.as_str(), "cond") {
            let message = concat3(
                "function '",
                header.name.as_str(),
                "' cannot be overridden by a script",
            );
            return Err(fault(name_token, ErrorKind::ScriptNameReserved, message));
        }
        let return_type = if kind.always_returns_void() {
            ValueType::Void
        } else {
            read_declared_type(&children[2], ErrorKind::BadScriptReturnType, true)?
        };
        (header, kind, return_type)
    };
    Ok(
        Script {
            name: header.name,
            return_type,
            script_type: kind,
            original_token: token,
            node: Node::default(),
            parameters: header.parameters,
        },
    )
}

/// What a top-level token defines.
pub fn classify_token(token: Token, target: CompileTarget) -> (r: Result<Definition, Diagnostic>)
    ensures
        match r {
            Ok(x) => classify(token@, target) == Ok::<DefinitionModel, DiagnosticModel>(x@),
            Err(d) => classify(token@, target) == Err::<DefinitionModel, DiagnosticModel>(d@),
        },
{
    let head = match &token.children {
        None => {
            let name = lowercase_token(&token);
            let message = concat3("expected 'global' or 'script', got '", name.as_str(), "' instead");
            return Err(fault(&token, ErrorKind::ExpectedGlobalOrScript, message));
        },
        Some(children) => {
            if children.len() == 0 {
                return Err(fault(&token, ErrorKind::EmptyBlock, "empty block".to_owned()));
            }
            assert(tokens_view(children@)[0] == children@[0]@);
            let head = lowercase_token(&children[0]);
            if !str_equal(head.as_str(), "global") && !str_equal(head.as_str(), "script") {
                let message = concat3(
                    "expected 'global' or 'script', got '",
                    head.as_str(),
                    "' instead",
                );
                return Err(fault(&children[0], ErrorKind::ExpectedGlobalOrScript, message));
            }
            head
        },
    };
    if str_equal(head.as_str(), "global") {
        Ok(Definition::Global(read_global(token)?))
    } else {
        Ok(Definition::Script(read_script(token, target)?))
    }
}

} // verus!
