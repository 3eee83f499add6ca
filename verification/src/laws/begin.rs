//! No call of `begin` with a single argument is left in a compiled file,
//! and the passes that rewrite the scripts do nothing when they are run a
//! second time.

use crate::compile::collapse::collapse;
use crate::compile::collapse::collapse_all;
use crate::compile::collapse::is_collapsed;
use crate::compile::collapse::lemma_collapse_idempotent;
use crate::compile::collapse::lemma_collapse_is_collapsed;
use crate::compile::digest::analyze_globals;
use crate::compile::digest::analyze_scripts;
use crate::compile::digest::digest;
use crate::compile::digest::file_scope;
use crate::compile::digest::with_global_nodes;
use crate::compile::digest::with_script_nodes;
use crate::compile::indices::indexed;
use crate::compile::indices::indexed_all;
use crate::compile::node::NodeModel;
use crate::compile::scope::Scope;
use crate::compile::script::ScriptModel;
use crate::compile::stubs::lemma_without_stubs_idempotent;
use crate::compile::stubs::without_stubs;
use crate::definitions::EngineFunction;
use crate::definitions::EngineGlobal;
use crate::laws::names::is_among;
use crate::laws::names::lemma_analyzed_globals;
use crate::laws::names::lemma_analyzed_scripts;
use crate::laws::names::lemma_without_stubs_among;
use crate::token::TokenModel;
use crate::types::CompileTarget;
use vstd::prelude::*;

verus! {

/// Giving out indices brings no call of `begin` with a single argument
/// into a tree.
pub proof fn lemma_indexed_collapsed(n: NodeModel, scope: Scope)
    requires
        is_collapsed(n),
    ensures
        is_collapsed(indexed(n, scope)),
    decreases n,
{
    let r = indexed(n, scope);
    if n.node_type is FunctionCall && n.parameters is Some {
        let p = n.parameters->0;
        assert(r.parameters->0 == indexed_all(p, scope));
        assert forall|i: int| 0 <= i < r.parameters->0.len() implies is_collapsed(
            #[trigger] r.parameters->0[i],
        ) by {
            assert(is_collapsed(n.parameters->0[i]));
            lemma_indexed_collapsed(p[i], scope);
        }
    }
}

/// In what the passes give, no tree holds a call of the engine's `begin`
/// with exactly one argument.
pub proof fn lemma_no_single_begin(
    tokens: Seq<TokenModel>,
    target: CompileTarget,
    functions: Seq<EngineFunction>,
    engine_globals: Seq<EngineGlobal>,
)
    ensures
        match digest(tokens, target, functions, engine_globals) {
            Ok(x) => (forall|k: int| 0 <= k < x.scripts.len() ==> is_collapsed(
                #[trigger] x.scripts[k].node,
            )) && (forall|k: int| 0 <= k < x.globals.len() ==> is_collapsed(
                #[trigger] x.globals[k].node,
            )),
            Err(_) => true,
        },
{
    match digest(tokens, target, functions, engine_globals) {
        Ok(x) => {
            let start = crate::compile::classify::Classification {
                scripts: Seq::empty(),
                globals: Seq::empty(),
            };
            let definitions = crate::compile::classify::classify_all(tokens, target, 0, start)->Ok_0;
            let scope = file_scope(
                target,
                functions,
                engine_globals,
                definitions.scripts,
                definitions.globals,
            );
            lemma_analyzed_globals(definitions.globals, scope, 0, Seq::empty());
            lemma_analyzed_scripts(definitions.scripts, scope, 0, Seq::empty());
            let global_nodes = analyze_globals(definitions.globals, scope, 0, Seq::empty())->Ok_0;
            let script_nodes = analyze_scripts(definitions.scripts, scope, 0, Seq::empty())->Ok_0;
            let globals = with_global_nodes(definitions.globals, collapse_all(global_nodes));
            let before = with_script_nodes(definitions.scripts, collapse_all(script_nodes));
            lemma_without_stubs_among(before);
            let scripts = without_stubs(before)->Ok_0;
            let last = file_scope(target, functions, engine_globals, scripts, globals);
            assert forall|k: int| 0 <= k < x.scripts.len() implies is_collapsed(
                #[trigger] x.scripts[k].node,
            ) by {
                assert(is_among(scripts[k], before));
                let j = choose|j: int| 0 <= j < before.len() && before[j] == scripts[k];
                assert(before[j].node == collapse(script_nodes[j]));
                lemma_collapse_is_collapsed(script_nodes[j]);
                lemma_indexed_collapsed(
                    scripts[k].node,
                    Scope { locals: scripts[k].parameters, ..last },
                );
            }
            assert forall|k: int| 0 <= k < x.globals.len() implies is_collapsed(
                #[trigger] x.globals[k].node,
            ) by {
                assert(globals[k].node == collapse(global_nodes[k]));
                lemma_collapse_is_collapsed(global_nodes[k]);
                lemma_indexed_collapsed(globals[k].node, last);
            }
        },
        Err(_) => {},
    }
}

/// Collapsing `begin` and removing stubs a second time changes nothing.
pub proof fn lemma_rewriting_twice(scripts: Seq<ScriptModel>, n: NodeModel)
    ensures
        collapse(collapse(n)) == collapse(n),
        without_stubs(scripts) is Ok ==> without_stubs(without_stubs(scripts)->Ok_0)
            == without_stubs(scripts),
{
    lemma_collapse_idempotent(n);
    if without_stubs(scripts) is Ok {
        lemma_without_stubs_idempotent(scripts);
    }
}

} // verus!
