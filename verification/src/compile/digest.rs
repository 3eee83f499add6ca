//! The compilation of a token forest, pass by pass: the top level is
//! classified, the globals and then the scripts are analyzed, `begin` is
//! collapsed, stubs are replaced, names and counts are checked, indices
//! are given out, and every node is held to have a type.

use crate::compile::analysis::analyze_call;
use crate::compile::analyze::create_node_from_function;
use crate::compile::analyze::outcome;
use crate::compile::analyze::rest_of;
use crate::compile::checks::check_definitions;
use crate::compile::checks::check_name;
use crate::compile::checks::check_resolved;
use crate::compile::checks::definitions_fault;
use crate::compile::checks::name_fault;
use crate::compile::checks::unresolved_among;
use crate::compile::classify::classify;
use crate::compile::classify::classify_all;
use crate::compile::classify::classify_token;
use crate::compile::classify::Definition;
use crate::compile::classify::Classification;
use crate::compile::collapse::collapse_all;
use crate::compile::collapse::optimize_all;
use crate::compile::indices::find_global_script_indices_for_node;
use crate::compile::indices::find_uninitialized_globals;
use crate::compile::indices::indexed;
use crate::compile::indices::uninitialized;
use crate::compile::node::nodes_view;
use crate::compile::node::Node;
use crate::compile::node::NodeModel;
use crate::compile::scope::Environment;
use crate::compile::scope::Scope;
use crate::compile::script::globals_view;
use crate::compile::script::parameters_view;
use crate::compile::script::scripts_view;
use crate::compile::script::Global;
use crate::compile::script::GlobalModel;
use crate::compile::script::Script;
use crate::compile::script::ScriptModel;
use crate::compile::script::ScriptParameter;
use crate::compile::script::ScriptParameterModel;
use crate::compile::stubs::remove_stubs;
use crate::compile::stubs::without_stubs;
use crate::definitions::EngineFunction;
use crate::definitions::EngineGlobal;
use crate::error::diagnostics_view;
use crate::error::Diagnostic;
use crate::error::DiagnosticModel;
use crate::token::tokens_view;
use crate::token::Token;
use crate::token::TokenModel;
use crate::types::CompileTarget;
use vstd::prelude::*;

verus! {

/// The expressions of a definition: the tokens of its block from a
/// position on.
pub open spec fn body_tokens(token: TokenModel, offset: int) -> Seq<TokenModel> {
    match token.children {
        Some(c) => if 0 <= offset <= c.len() {
            c.subrange(offset, c.len() as int)
        } else {
            Seq::empty()
        },
        None => Seq::empty(),
    }
}

/// The node of a global's initializer: its expression as the only argument
/// of `begin`, expected to be of the global's type.
pub open spec fn analyze_global(g: GlobalModel, scope: Scope) -> Result<NodeModel, DiagnosticModel> {
    match name_fault(g.name, g.original_token, false) {
        Some(d) => Err(d),
        None => analyze_call(
            "begin"@,
            g.original_token,
            g.value_type,
            body_tokens(g.original_token, 3),
            Scope { locals: Seq::empty(), ..scope },
        ),
    }
}

/// The node of a script's body: its expressions as the arguments of
/// `begin`, expected to be of the script's return type, with the script's
/// parameters as locals.
pub open spec fn analyze_script(s: ScriptModel, scope: Scope) -> Result<NodeModel, DiagnosticModel> {
    match name_fault(s.name, s.original_token, true) {
        Some(d) => Err(d),
        None => analyze_call(
            "begin"@,
            s.original_token,
            s.return_type,
            body_tokens(s.original_token, s.script_type.body_offset() as int),
            Scope { locals: s.parameters, ..scope },
        ),
    }
}

/// The nodes of the globals from position `i` on, after those analyzed so
/// far.
pub open spec fn analyze_globals(
    globals: Seq<GlobalModel>,
    scope: Scope,
    i: int,
    so_far: Seq<NodeModel>,
) -> Result<Seq<NodeModel>, DiagnosticModel>
    decreases globals.len() - i,
{
    if i < 0 || i >= globals.len() {
        Ok(so_far)
    } else {
        match analyze_global(globals[i], scope) {
            Err(d) => Err(d),
            Ok(n) => analyze_globals(globals, scope, i + 1, so_far.push(n)),
        }
    }
}

/// The nodes of the scripts from position `i` on, after those analyzed so
/// far.
pub open spec fn analyze_scripts(
    scripts: Seq<ScriptModel>,
    scope: Scope,
    i: int,
    so_far: Seq<NodeModel>,
) -> Result<Seq<NodeModel>, DiagnosticModel>
    decreases scripts.len() - i,
{
    if i < 0 || i >= scripts.len() {
        Ok(so_far)
    } else {
        match analyze_script(scripts[i], scope) {
            Err(d) => Err(d),
            Ok(n) => analyze_scripts(scripts, scope, i + 1, so_far.push(n)),
        }
    }
}

/// The scripts with the nodes of a list in place of their own.
pub open spec fn with_script_nodes(scripts: Seq<ScriptModel>, nodes: Seq<NodeModel>) -> Seq<
    ScriptModel,
> {
    Seq::new(scripts.len(), |i: int| ScriptModel { node: nodes[i], ..scripts[i] })
}

/// The globals with the nodes of a list in place of their own.
pub open spec fn with_global_nodes(globals: Seq<GlobalModel>, nodes: Seq<NodeModel>) -> Seq<
    GlobalModel,
> {
    Seq::new(globals.len(), |i: int| GlobalModel { node: nodes[i], ..globals[i] })
}

/// The nodes of the scripts with their indices, each with the parameters
/// of its script as locals.
pub open spec fn indexed_script_nodes(scripts: Seq<ScriptModel>, scope: Scope) -> Seq<NodeModel> {
    Seq::new(
        scripts.len(),
        |i: int| indexed(scripts[i].node, Scope { locals: scripts[i].parameters, ..scope }),
    )
}

/// The nodes of the globals with their indices.
pub open spec fn indexed_global_nodes(globals: Seq<GlobalModel>, scope: Scope) -> Seq<NodeModel> {
    Seq::new(globals.len(), |i: int| indexed(globals[i].node, scope))
}

/// The warnings for the initializers of the first `end` globals, in
/// order: each is held against itself and the globals after it.
pub open spec fn global_warnings(nodes: Seq<NodeModel>, scope: Scope, end: int) -> Seq<
    DiagnosticModel,
>
    decreases end,
{
    if end <= 0 || end > nodes.len() {
        Seq::empty()
    } else {
        global_warnings(nodes, scope, end - 1) + uninitialized(nodes[end - 1], scope, end - 1)
    }
}

/// What the passes give.
pub struct Digest {
    pub scripts: Seq<ScriptModel>,
    pub globals: Seq<GlobalModel>,
    pub warnings: Seq<DiagnosticModel>,
}

/// The scope in which the definitions of a file are analyzed.
pub open spec fn file_scope(
    target: CompileTarget,
    functions: Seq<EngineFunction>,
    engine_globals: Seq<EngineGlobal>,
    scripts: Seq<ScriptModel>,
    globals: Seq<GlobalModel>,
) -> Scope {
    Scope { target, functions, engine_globals, scripts, globals, locals: Seq::empty() }
}

/// The scripts and globals with their indices and the warnings, where
/// every node has a type; else the diagnostic for the first node without
/// one, scripts before globals.
pub open spec fn finalize(
    target: CompileTarget,
    functions: Seq<EngineFunction>,
    engine_globals: Seq<EngineGlobal>,
    scripts: Seq<ScriptModel>,
    globals: Seq<GlobalModel>,
) -> Result<Digest, DiagnosticModel> {
    let scope = file_scope(target, functions, engine_globals, scripts, globals);
    let script_nodes = indexed_script_nodes(scripts, scope);
    let global_nodes = indexed_global_nodes(globals, scope);
    match unresolved_among(script_nodes, 0) {
        Some(d) => Err(d),
        None => match unresolved_among(global_nodes, 0) {
            Some(d) => Err(d),
            None => Ok(
                Digest {
                    scripts: with_script_nodes(scripts, script_nodes),
                    globals: with_global_nodes(globals, global_nodes),
                    warnings: global_warnings(global_nodes, scope, global_nodes.len() as int),
                },
            ),
        },
    }
}

/// What is left to do once the globals and scripts are analyzed.
pub open spec fn settle(
    target: CompileTarget,
    functions: Seq<EngineFunction>,
    engine_globals: Seq<EngineGlobal>,
    definitions: Classification,
    global_nodes: Seq<NodeModel>,
    script_nodes: Seq<NodeModel>,
) -> Result<Digest, DiagnosticModel> {
    let globals = with_global_nodes(definitions.globals, collapse_all(global_nodes));
    match without_stubs(with_script_nodes(definitions.scripts, collapse_all(script_nodes))) {
        Err(d) => Err(d),
        Ok(scripts) => match definitions_fault(scripts, globals) {
            Some(d) => Err(d),
            None => finalize(target, functions, engine_globals, scripts, globals),
        },
    }
}

/// The scripts and globals that a token forest defines, analyzed and
/// indexed, with the warnings; or the first diagnostic.
pub open spec fn digest(
    tokens: Seq<TokenModel>,
    target: CompileTarget,
    functions: Seq<EngineFunction>,
    engine_globals: Seq<EngineGlobal>,
) -> Result<Digest, DiagnosticModel> {
    match classify_all(
        tokens,
        target,
        0,
        Classification { scripts: Seq::empty(), globals: Seq::empty() },
    ) {
        Err(d) => Err(d),
        Ok(definitions) => {
            let scope = file_scope(
                target,
                functions,
                engine_globals,
                definitions.scripts,
                definitions.globals,
            );
            match analyze_globals(definitions.globals, scope, 0, Seq::empty()) {
                Err(d) => Err(d),
                Ok(global_nodes) => match analyze_scripts(
                    definitions.scripts,
                    scope,
                    0,
                    Seq::empty(),
                ) {
                    Err(d) => Err(d),
                    Ok(script_nodes) => settle(
                        target,
                        functions,
                        engine_globals,
                        definitions,
                        global_nodes,
                        script_nodes,
                    ),
                },
            }
        },
    }
}

/// What the passes give.
pub struct Digested {
    pub scripts: Vec<Script>,
    pub globals: Vec<Global>,
    pub warnings: Vec<Diagnostic>,
}

impl View for Digested {
    type V = Digest;

    open spec fn view(&self) -> Digest {
        Digest {
            scripts: scripts_view(self.scripts@),
            globals: globals_view(self.globals@),
            warnings: diagnostics_view(self.warnings@),
        }
    }
}

/// The definitions of a file.
pub struct Classified {
    pub scripts: Vec<Script>,
    pub globals: Vec<Global>,
}

/// Classifies the top-level tokens of a file.
#[verifier::loop_isolation(false)]
pub fn classify_tokens(tokens: &Vec<Token>, target: CompileTarget) -> (r: Result<
    Classified,
    Diagnostic,
>)
    ensures
        match r {
            Ok(c) => classify_all(
                tokens_view(tokens@),
                target,
                0,
                Classification { scripts: Seq::empty(), globals: Seq::empty() },
            ) == Ok::<Classification, DiagnosticModel>(
                Classification { scripts: scripts_view(c.scripts@), globals: globals_view(c.globals@) },
            ),
            Err(d) => classify_all(
                tokens_view(tokens@),
                target,
                0,
                Classification { scripts: Seq::empty(), globals: Seq::empty() },
            ) == Err::<Classification, DiagnosticModel>(d@),
        },
{
    let mut scripts: Vec<Script> = Vec::new();
    let mut globals: Vec<Global> = Vec::new();
    let ghost all = tokens_view(tokens@);
    let ghost start = Classification { scripts: Seq::empty(), globals: Seq::empty() };
    assert(scripts_view(scripts@) =~= Seq::empty());
    assert(globals_view(globals@) =~= Seq::empty());
    let mut i: usize = 0;
    while i < tokens.len()
        invariant
            i <= tokens@.len(),
            all == tokens_view(tokens@),
            classify_all(all, target, 0, start) == classify_all(
                all,
                target,
                i as int,
                Classification { scripts: scripts_view(scripts@), globals: globals_view(globals@) },
            ),
        decreases tokens@.len() - i,
    {
        assert(all[i as int] == tokens@[i as int]@);
        match classify_token(tokens[i].duplicate(), target)? {
            Definition::Global(g) => {
                let ghost before = globals_view(globals@);
                globals.push(g);
                assert(globals_view(globals@) =~= before.push(g@));
            },
            Definition::Script(s) => {
                let ghost before = scripts_view(scripts@);
                scripts.push(s);
                assert(scripts_view(scripts@) =~= before.push(s@));
            },
        }
        i += 1;
    }
    Ok(Classified { scripts, globals })
}

fn analyze_body(
    token: &Token,
    expected: crate::value_type::ValueType,
    offset: usize,
    env: &Environment,
) -> (r: Result<Node, Diagnostic>)
    ensures
        outcome(r) == analyze_call(
            "begin"@,
            token@,
            expected,
            body_tokens(token@, offset as int),
            env@,
        ),
{
    match &token.children {
        Some(c) => {
            assert(token@.children == Some(tokens_view(c@)));
            assert(tokens_view(c@).len() == c@.len());
            assert(body_tokens(token@, offset as int) =~= rest_of(c@, offset));
            create_node_from_function("begin", token, expected, c, offset, env)
        },
        None => {
            let none: Vec<Token> = Vec::new();
            assert(rest_of(none@, 0) =~= Seq::empty());
            create_node_from_function("begin", token, expected, &none, 0, env)
        },
    }
}

#[verifier::loop_isolation(false)]
fn analyze_all_globals(
    target: CompileTarget,
    definitions: &crate::definitions::Definitions,
    scripts: &Vec<Script>,
    globals: &Vec<Global>,
) -> (r: Result<Vec<Node>, Diagnostic>)
    ensures
        match r {
            Ok(nodes) => analyze_globals(
                globals_view(globals@),
                file_scope(
                    target,
                    definitions.functions@,
                    definitions.globals@,
                    scripts_view(scripts@),
                    globals_view(globals@),
                ),
                0,
                Seq::empty(),
            ) == Ok::<Seq<NodeModel>, DiagnosticModel>(nodes_view(nodes@)) && nodes@.len()
                == globals@.len(),
            Err(d) => analyze_globals(
                globals_view(globals@),
                file_scope(
                    target,
                    definitions.functions@,
                    definitions.globals@,
                    scripts_view(scripts@),
                    globals_view(globals@),
                ),
                0,
                Seq::empty(),
            ) == Err::<Seq<NodeModel>, DiagnosticModel>(d@),
        },
{
    let none: Vec<ScriptParameter> = Vec::new();
    let env = Environment { target, definitions, scripts, globals, locals: &none };
    let ghost scope = file_scope(
        target,
        definitions.functions@,
        definitions.globals@,
        scripts_view(scripts@),
        globals_view(globals@),
    );
    assert(parameters_view(none@) =~= Seq::empty());
    assert(env@ == scope);
    let ghost all = globals_view(globals@);
    let mut nodes: Vec<Node> = Vec::new();
    assert(nodes_view(nodes@) =~= Seq::empty());
    let mut i: usize = 0;
    while i < globals.len()
        invariant
            i <= globals@.len(),
            nodes@.len() == i,
            all == globals_view(globals@),
            env@ == scope,
            scope.locals == Seq::<ScriptParameterModel>::empty(),
            analyze_globals(all, scope, 0, Seq::empty()) == analyze_globals(
                all,
                scope,
                i as int,
                nodes_view(nodes@),
            ),
        decreases globals@.len() - i,
    {
        let g = &globals[i];
        assert(all[i as int] == g@);
        assert(Scope { locals: Seq::empty(), ..scope } == scope);
        check_name(g.name.as_str(), &g.original_token, false)?;
        let node = analyze_body(&g.original_token, g.value_type, 3, &env)?;
        let ghost before = nodes_view(nodes@);
        nodes.push(node);
        assert(nodes_view(nodes@) =~= before.push(node@));
        i += 1;
    }
    Ok(nodes)
}

#[verifier::loop_isolation(false)]
fn analyze_all_scripts(
    target: CompileTarget,
    definitions: &crate::definitions::Definitions,
    scripts: &Vec<Script>,
    globals: &Vec<Global>,
) -> (r: Result<Vec<Node>, Diagnostic>)
    ensures
        match r {
            Ok(nodes) => analyze_scripts(
                scripts_view(scripts@),
                file_scope(
                    target,
                    definitions.functions@,
                    definitions.globals@,
                    scripts_view(scripts@),
                    globals_view(globals@),
                ),
                0,
                Seq::empty(),
            ) == Ok::<Seq<NodeModel>, DiagnosticModel>(nodes_view(nodes@)) && nodes@.len()
                == scripts@.len(),
            Err(d) => analyze_scripts(
                scripts_view(scripts@),
                file_scope(
                    target,
                    definitions.functions@,
                    definitions.globals@,
                    scripts_view(scripts@),
                    globals_view(globals@),
                ),
                0,
                Seq::empty(),
            ) == Err::<Seq<NodeModel>, DiagnosticModel>(d@),
        },
{
    let ghost scope = file_scope(
        target,
        definitions.functions@,
        definitions.globals@,
        scripts_view(scripts@),
        globals_view(globals@),
    );
    let ghost all = scripts_view(scripts@);
    let mut nodes: Vec<Node> = Vec::new();
    assert(nodes_view(nodes@) =~= Seq::empty());
    let mut i: usize = 0;
    while i < scripts.len()
        invariant
            i <= scripts@.len(),
            nodes@.len() == i,
            all == scripts_view(scripts@),
            scope == file_scope(
                target,
                definitions.functions@,
                definitions.globals@,
                scripts_view(scripts@),
                globals_view(globals@),
            ),
            analyze_scripts(all, scope, 0, Seq::empty()) == analyze_scripts(
                all,
                scope,
                i as int,
                nodes_view(nodes@),
            ),
        decreases scripts@.len() - i,
    {
        let s = &scripts[i];
        assert(all[i as int] == s@);
        let env = Environment { target, definitions, scripts, globals, locals: &s.parameters };
        assert(env@ == Scope { locals: s@.parameters, ..scope });
        check_name(s.name.as_str(), &s.original_token, true)?;
        let node = analyze_body(
            &s.original_token,
            s.return_type,
            s.script_type.expression_offset(),
            &env,
        )?;
        let ghost before = nodes_view(nodes@);
        nodes.push(node);
        assert(nodes_view(nodes@) =~= before.push(node@));
        i += 1;
    }
    Ok(nodes)
}

fn store_script_nodes(scripts: &mut Vec<Script>, nodes: &Vec<Node>)
    requires
        old(scripts)@.len() == nodes@.len(),
    ensures
        scripts_view(final(scripts)@) == with_script_nodes(
            scripts_view(old(scripts)@),
            nodes_view(nodes@),
        ),
{
    let ghost before = scripts@;
    let mut i: usize = 0;
    while i < scripts.len()
        invariant
            i <= scripts@.len(),
            scripts@.len() == before.len(),
            before.len() == nodes@.len(),
            forall|k: int| 0 <= k < i ==> scripts@[k]@ == (ScriptModel {
                node: nodes@[k]@,
                ..before[k]@
            }),
            forall|k: int| i <= k < scripts@.len() ==> scripts@[k] == before[k],
        decreases scripts@.len() - i,
    {
        let ghost middle = scripts@;
        scripts[i].node = nodes[i].duplicate();
        assert(scripts@.len() == middle.len());
        assert(forall|k: int| 0 <= k < middle.len() && k != i ==> scripts@[k] == middle[k]);
        i += 1;
    }
    assert(scripts_view(scripts@) =~= with_script_nodes(scripts_view(before), nodes_view(nodes@)));
}

fn store_global_nodes(globals: &mut Vec<Global>, nodes: &Vec<Node>)
    requires
        old(globals)@.len() == nodes@.len(),
    ensures
        globals_view(final(globals)@) == with_global_nodes(
            globals_view(old(globals)@),
            nodes_view(nodes@),
        ),
{
    let ghost before = globals@;
    let mut i: usize = 0;
    while i < globals.len()
        invariant
            i <= globals@.len(),
            globals@.len() == before.len(),
            before.len() == nodes@.len(),
            forall|k: int| 0 <= k < i ==> globals@[k]@ == (GlobalModel {
                node: nodes@[k]@,
                ..before[k]@
            }),
            forall|k: int| i <= k < globals@.len() ==> globals@[k] == before[k],
        decreases globals@.len() - i,
    {
        let ghost middle = globals@;
        globals[i].node = nodes[i].duplicate();
        assert(globals@.len() == middle.len());
        assert(forall|k: int| 0 <= k < middle.len() && k != i ==> globals@[k] == middle[k]);
        i += 1;
    }
    assert(globals_view(globals@) =~= with_global_nodes(globals_view(before), nodes_view(nodes@)));
}

fn index_script_nodes(
    target: CompileTarget,
    definitions: &crate::definitions::Definitions,
    scripts: &Vec<Script>,
    globals: &Vec<Global>,
) -> (r: Vec<Node>)
    ensures
        nodes_view(r@) == indexed_script_nodes(
            scripts_view(scripts@),
            file_scope(
                target,
                definitions.functions@,
                definitions.globals@,
                scripts_view(scripts@),
                globals_view(globals@),
            ),
        ),
        r@.len() == scripts@.len(),
{
    let ghost scope = file_scope(
        target,
        definitions.functions@,
        definitions.globals@,
        scripts_view(scripts@),
        globals_view(globals@),
    );
    let mut nodes: Vec<Node> = Vec::new();
    let mut i: usize = 0;
    while i < scripts.len()
        invariant
            i <= scripts@.len(),
            nodes@.len() == i,
            scope == file_scope(
                target,
                definitions.functions@,
                definitions.globals@,
                scripts_view(scripts@),
                globals_view(globals@),
            ),
            forall|k: int| 0 <= k < i ==> nodes@[k]@ == indexed(
                scripts@[k]@.node,
                Scope { locals: scripts@[k]@.parameters, ..scope },
            ),
        decreases scripts@.len() - i,
    {
        let s = &scripts[i];
        let env = Environment { target, definitions, scripts, globals, locals: &s.parameters };
        assert(env@ == Scope { locals: s@.parameters, ..scope });
        nodes.push(find_global_script_indices_for_node(&s.node, &env));
        i += 1;
    }
    assert(nodes_view(nodes@) =~= indexed_script_nodes(scripts_view(scripts@), scope));
    nodes
}

/// The nodes of the globals with their indices, and the warnings for them.
struct IndexedGlobals {
    nodes: Vec<Node>,
    warnings: Vec<Diagnostic>,
}

fn index_global_nodes(
    target: CompileTarget,
    definitions: &crate::definitions::Definitions,
    scripts: &Vec<Script>,
    globals: &Vec<Global>,
) -> (r: IndexedGlobals)
    ensures
        nodes_view(r.nodes@) == indexed_global_nodes(
            globals_view(globals@),
            file_scope(
                target,
                definitions.functions@,
                definitions.globals@,
                scripts_view(scripts@),
                globals_view(globals@),
            ),
        ),
        r.nodes@.len() == globals@.len(),
        diagnostics_view(r.warnings@) == global_warnings(
            nodes_view(r.nodes@),
            file_scope(
                target,
                definitions.functions@,
                definitions.globals@,
                scripts_view(scripts@),
                globals_view(globals@),
            ),
            globals@.len() as int,
        ),
{
    let none: Vec<ScriptParameter> = Vec::new();
    let env = Environment { target, definitions, scripts, globals, locals: &none };
    let ghost scope = file_scope(
        target,
        definitions.functions@,
        definitions.globals@,
        scripts_view(scripts@),
        globals_view(globals@),
    );
    assert(parameters_view(none@) =~= Seq::empty());
    assert(env@ == scope);
    let ghost target_nodes = indexed_global_nodes(globals_view(globals@), scope);
    let mut nodes: Vec<Node> = Vec::new();
    let mut warnings: Vec<Diagnostic> = Vec::new();
    assert(diagnostics_view(warnings@) =~= Seq::empty());
    let mut i: usize = 0;
    while i < globals.len()
        invariant
            i <= globals@.len(),
            nodes@.len() == i,
            env@ == scope,
            target_nodes == indexed_global_nodes(globals_view(globals@), scope),
            forall|k: int| 0 <= k < i ==> nodes@[k]@ == target_nodes[k],
            diagnostics_view(warnings@) == global_warnings(target_nodes, scope, i as int),
        decreases globals@.len() - i,
    {
        let node = find_global_script_indices_for_node(&globals[i].node, &env);
        assert(node@ == target_nodes[i as int]);
        find_uninitialized_globals(&node, &env, i, &mut warnings);
        nodes.push(node);
        i += 1;
    }
    assert(nodes_view(nodes@) =~= target_nodes);
    IndexedGlobals { nodes, warnings }
}

fn check_all_resolved(nodes: &Vec<Node>) -> (r: Result<(), Diagnostic>)
    ensures
        match r {
            Ok(_) => unresolved_among(nodes_view(nodes@), 0) is None,
            Err(d) => unresolved_among(nodes_view(nodes@), 0) == Some(d@),
        },
{
    let ghost all = nodes_view(nodes@);
    let mut i: usize = 0;
    while i < nodes.len()
        invariant
            i <= nodes@.len(),
            all == nodes_view(nodes@),
            unresolved_among(all, 0) == unresolved_among(all, i as int),
        decreases nodes@.len() - i,
    {
        assert(all[i as int] == nodes@[i as int]@);
        check_resolved(&nodes[i])?;
        i += 1;
    }
    Ok(())
}

fn finalize_definitions(
    target: CompileTarget,
    definitions: &crate::definitions::Definitions,
    scripts: Vec<Script>,
    globals: Vec<Global>,
) -> (r: Result<Digested, Diagnostic>)
    ensures
        match r {
            Ok(x) => finalize(
                target,
                definitions.functions@,
                definitions.globals@,
                scripts_view(scripts@),
                globals_view(globals@),
            ) == Ok::<Digest, DiagnosticModel>(x@),
            Err(d) => finalize(
                target,
                definitions.functions@,
                definitions.globals@,
                scripts_view(scripts@),
                globals_view(globals@),
            ) == Err::<Digest, DiagnosticModel>(d@),
        },
{
    let mut scripts = scripts;
    let mut globals = globals;
    let indexed_scripts = index_script_nodes(target, definitions, &scripts, &globals);
    let indexed_globals = index_global_nodes(target, definitions, &scripts, &globals);
    check_all_resolved(&indexed_scripts)?;
    check_all_resolved(&indexed_globals.nodes)?;
    store_script_nodes(&mut scripts, &indexed_scripts);
    store_global_nodes(&mut globals, &indexed_globals.nodes);
    Ok(Digested { scripts, globals, warnings: indexed_globals.warnings })
}

fn settle_definitions(
    target: CompileTarget,
    definitions: &crate::definitions::Definitions,
    scripts: Vec<Script>,
    globals: Vec<Global>,
    global_nodes: &Vec<Node>,
    script_nodes: &Vec<Node>,
) -> (r: Result<Digested, Diagnostic>)
    requires
        global_nodes@.len() == globals@.len(),
        script_nodes@.len() == scripts@.len(),
    ensures
        match r {
            Ok(x) => settle(
                target,
                definitions.functions@,
                definitions.globals@,
                Classification { scripts: scripts_view(scripts@), globals: globals_view(globals@) },
                nodes_view(global_nodes@),
                nodes_view(script_nodes@),
            ) == Ok::<Digest, DiagnosticModel>(x@),
            Err(d) => settle(
                target,
                definitions.functions@,
                definitions.globals@,
                Classification { scripts: scripts_view(scripts@), globals: globals_view(globals@) },
                nodes_view(global_nodes@),
                nodes_view(script_nodes@),
            ) == Err::<Digest, DiagnosticModel>(d@),
        },
{
    let mut scripts = scripts;
    let mut globals = globals;
    let collapsed_globals = optimize_all(global_nodes);
    let collapsed_scripts = optimize_all(script_nodes);
    store_global_nodes(&mut globals, &collapsed_globals);
    store_script_nodes(&mut scripts, &collapsed_scripts);
    let kept = remove_stubs(scripts)?;
    check_definitions(&kept, &globals)?;
    finalize_definitions(target, definitions, kept, globals)
}

/// Compiles a token forest up to, but not including, emission.
pub fn digest_tokens(
    tokens: &Vec<Token>,
    target: CompileTarget,
    definitions: &crate::definitions::Definitions,
) -> (r: Result<Digested, Diagnostic>)
    ensures
        match r {
            Ok(x) => digest(tokens_view(tokens@), target, definitions.functions@, definitions.globals@)
                == Ok::<Digest, DiagnosticModel>(x@),
            Err(d) => digest(
                tokens_view(tokens@),
                target,
                definitions.functions@,
                definitions.globals@,
            ) == Err::<Digest, DiagnosticModel>(d@),
        },
{
    let classified = classify_tokens(tokens, target)?;
    let global_nodes = analyze_all_globals(
        target,
        definitions,
        &classified.scripts,
        &classified.globals,
    )?;
    let script_nodes = analyze_all_scripts(
        target,
        definitions,
        &classified.scripts,
        &classified.globals,
    )?;
    settle_definitions(
        target,
        definitions,
        classified.scripts,
        classified.globals,
        &global_nodes,
        &script_nodes,
    )
}

} // verus!
