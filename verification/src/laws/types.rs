//! Every node of a compiled file has a type.

use crate::compile::checks::is_open;
use crate::compile::checks::is_resolved;
use crate::compile::checks::lemma_unresolved_among;
use crate::compile::digest::digest;
use crate::compile::digest::finalize;
use crate::compile::digest::settle;
use crate::compile::emit::emit_globals;
use crate::compile::emit::emit_scripts;
use crate::compile::emit::emitted;
use crate::compile::emit::emitted_arguments;
use crate::compile::emit::Emission;
use crate::compile::node::NodeModel;
use crate::compile::script::GlobalModel;
use crate::compile::script::ScriptModel;
use crate::compile::types::CompiledNodeModel;
use crate::compiler::compilation;
use crate::compiler::CompilerModel;
use crate::definitions::EngineFunction;
use crate::definitions::EngineGlobal;
use crate::token::TokenModel;
use crate::types::CompileEncoding;
use crate::types::CompileTarget;
use crate::types::NodeType;
use vstd::prelude::*;

verus! {

/// Whether every node of an array has a type.
pub open spec fn all_typed(nodes: Seq<CompiledNodeModel>) -> bool {
    forall|k: int| 0 <= k < nodes.len() ==> !is_open(#[trigger] nodes[k].value_type)
}

/// A tree whose nodes all have a type becomes nodes that all have a type.
pub proof fn lemma_emitted_typed(n: NodeModel, base: int, encoding: CompileEncoding)
    requires
        is_resolved(n),
    ensures
        all_typed(emitted(n, base, encoding)),
    decreases n, 0nat,
{
    match n.node_type {
        NodeType::Primitive(_) => {},
        NodeType::FunctionCall(_) => {
            match n.parameters {
                Some(p) => {
                    assert forall|k: int| 0 <= k < p.len() implies is_resolved(p[k]) by {
                        assert(is_resolved(n.parameters->0[k]));
                    }
                    lemma_emitted_arguments_typed(p, 0, base + 2, encoding);
                },
                None => {},
            }
        },
    }
}

/// Trees whose nodes all have a type become nodes that all have a type.
pub proof fn lemma_emitted_arguments_typed(
    s: Seq<NodeModel>,
    i: int,
    base: int,
    encoding: CompileEncoding,
)
    requires
        0 <= i,
        forall|k: int| i <= k < s.len() ==> is_resolved(s[k]),
    ensures
        all_typed(emitted_arguments(s, i, base, encoding)),
    decreases s, s.len() - i,
{
    if i < s.len() {
        lemma_emitted_typed(s[i], base, encoding);
        let own = emitted(s[i], base, encoding);
        lemma_emitted_arguments_typed(s, i + 1, base + own.len(), encoding);
    }
}

/// Scripts whose nodes all have a type, emitted after nodes that all have
/// one, give nodes that all have one.
pub proof fn lemma_emit_scripts_typed(
    scripts: Seq<ScriptModel>,
    i: int,
    so_far: Emission,
    encoding: CompileEncoding,
)
    requires
        0 <= i,
        all_typed(so_far.nodes),
        forall|k: int| i <= k < scripts.len() ==> is_resolved(#[trigger] scripts[k].node),
    ensures
        all_typed(emit_scripts(scripts, i, so_far, encoding).nodes),
    decreases scripts.len() - i,
{
    if i < scripts.len() {
        lemma_emitted_typed(scripts[i].node, so_far.nodes.len() as int, encoding);
        let next = Emission {
            scripts: so_far.scripts.push(
                crate::compile::emit::compiled_script(
                    scripts[i],
                    so_far.nodes.len() as usize,
                    encoding,
                ),
            ),
            nodes: so_far.nodes + emitted(scripts[i].node, so_far.nodes.len() as int, encoding),
            ..so_far
        };
        lemma_emit_scripts_typed(scripts, i + 1, next, encoding);
    }
}

/// Globals whose nodes all have a type, emitted after nodes that all have
/// one, give nodes that all have one.
pub proof fn lemma_emit_globals_typed(
    globals: Seq<GlobalModel>,
    i: int,
    so_far: Emission,
    encoding: CompileEncoding,
)
    requires
        0 <= i,
        all_typed(so_far.nodes),
        forall|k: int| i <= k < globals.len() ==> is_resolved(#[trigger] globals[k].node),
    ensures
        all_typed(emit_globals(globals, i, so_far, encoding).nodes),
    decreases globals.len() - i,
{
    if i < globals.len() {
        lemma_emitted_typed(globals[i].node, so_far.nodes.len() as int, encoding);
        let next = Emission {
            globals: so_far.globals.push(
                crate::compile::emit::compiled_global(
                    globals[i],
                    so_far.nodes.len() as usize,
                    encoding,
                ),
            ),
            nodes: so_far.nodes + emitted(globals[i].node, so_far.nodes.len() as int, encoding),
            ..so_far
        };
        lemma_emit_globals_typed(globals, i + 1, next, encoding);
    }
}

/// Where the passes succeed, every node of every script and global has a
/// type.
pub proof fn lemma_digest_resolved(
    tokens: Seq<TokenModel>,
    target: CompileTarget,
    functions: Seq<EngineFunction>,
    engine_globals: Seq<EngineGlobal>,
)
    ensures
        match digest(tokens, target, functions, engine_globals) {
            Ok(x) => (forall|k: int| 0 <= k < x.scripts.len() ==> is_resolved(
                #[trigger] x.scripts[k].node,
            )) && (forall|k: int| 0 <= k < x.globals.len() ==> is_resolved(
                #[trigger] x.globals[k].node,
            )),
            Err(_) => true,
        },
{
    match digest(tokens, target, functions, engine_globals) {
        Ok(x) => {
            let definitions = crate::compile::classify::classify_all(
                tokens,
                target,
                0,
                crate::compile::classify::Classification {
                    scripts: Seq::empty(),
                    globals: Seq::empty(),
                },
            )->Ok_0;
            let scope = crate::compile::digest::file_scope(
                target,
                functions,
                engine_globals,
                definitions.scripts,
                definitions.globals,
            );
            let global_nodes = crate::compile::digest::analyze_globals(
                definitions.globals,
                scope,
                0,
                Seq::empty(),
            )->Ok_0;
            let script_nodes = crate::compile::digest::analyze_scripts(
                definitions.scripts,
                scope,
                0,
                Seq::empty(),
            )->Ok_0;
            lemma_settle_resolved(
                target,
                functions,
                engine_globals,
                definitions,
                global_nodes,
                script_nodes,
            );
        },
        Err(_) => {},
    }
}

/// Where the later passes succeed, every node of every script and global
/// has a type.
pub proof fn lemma_settle_resolved(
    target: CompileTarget,
    functions: Seq<EngineFunction>,
    engine_globals: Seq<EngineGlobal>,
    definitions: crate::compile::classify::Classification,
    global_nodes: Seq<NodeModel>,
    script_nodes: Seq<NodeModel>,
)
    ensures
        match settle(target, functions, engine_globals, definitions, global_nodes, script_nodes) {
            Ok(x) => (forall|k: int| 0 <= k < x.scripts.len() ==> is_resolved(
                #[trigger] x.scripts[k].node,
            )) && (forall|k: int| 0 <= k < x.globals.len() ==> is_resolved(
                #[trigger] x.globals[k].node,
            )),
            Err(_) => true,
        },
{
    let globals = crate::compile::digest::with_global_nodes(
        definitions.globals,
        crate::compile::collapse::collapse_all(global_nodes),
    );
    match crate::compile::stubs::without_stubs(
        crate::compile::digest::with_script_nodes(
            definitions.scripts,
            crate::compile::collapse::collapse_all(script_nodes),
        ),
    ) {
        Ok(scripts) => {
            lemma_finalize_resolved(target, functions, engine_globals, scripts, globals);
        },
        Err(_) => {},
    }
}

/// Where the last pass succeeds, every node of every script and global
/// has a type.
pub proof fn lemma_finalize_resolved(
    target: CompileTarget,
    functions: Seq<EngineFunction>,
    engine_globals: Seq<EngineGlobal>,
    scripts: Seq<ScriptModel>,
    globals: Seq<GlobalModel>,
)
    ensures
        match finalize(target, functions, engine_globals, scripts, globals) {
            Ok(x) => (forall|k: int| 0 <= k < x.scripts.len() ==> is_resolved(
                #[trigger] x.scripts[k].node,
            )) && (forall|k: int| 0 <= k < x.globals.len() ==> is_resolved(
                #[trigger] x.globals[k].node,
            )),
            Err(_) => true,
        },
{
    let scope = crate::compile::digest::file_scope(
        target,
        functions,
        engine_globals,
        scripts,
        globals,
    );
    let script_nodes = crate::compile::digest::indexed_script_nodes(scripts, scope);
    let global_nodes = crate::compile::digest::indexed_global_nodes(globals, scope);
    lemma_unresolved_among(script_nodes, 0);
    lemma_unresolved_among(global_nodes, 0);
}

/// Every node of a compiled file has a type: none is `Unparsed` and none
/// is `Passthrough`.
pub proof fn lemma_compiled_nodes_have_types(c: CompilerModel)
    ensures
        compilation(c) is Ok ==> all_typed(compilation(c)->Ok_0.nodes),
{
    lemma_digest_resolved(c.tokens, c.target, c.functions, c.globals);
    match digest(c.tokens, c.target, c.functions, c.globals) {
        Ok(x) => {
            let start = Emission {
                scripts: Seq::empty(),
                globals: Seq::empty(),
                nodes: Seq::empty(),
            };
            lemma_emit_scripts_typed(x.scripts, 0, start, c.encoding);
            lemma_emit_globals_typed(
                x.globals,
                0,
                emit_scripts(x.scripts, 0, start, c.encoding),
                c.encoding,
            );
        },
        Err(_) => {},
    }
}

} // verus!
