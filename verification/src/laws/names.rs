//! The names of the scripts and globals of a compiled file: each is in
//! lower case and no longer than 31 bytes, and no two scripts and no two
//! globals share one.

use crate::compile::checks::all_distinct;
use crate::compile::checks::global_names;
use crate::compile::checks::lemma_distinct;
use crate::compile::checks::name_limit;
use crate::compile::checks::script_names;
use crate::compile::classify::classify;
use crate::compile::classify::classify_all;
use crate::compile::classify::DefinitionModel;
use crate::compile::classify::Classification;
use crate::compile::collapse::collapse_all;
use crate::compile::digest::analyze_globals;
use crate::compile::digest::analyze_scripts;
use crate::compile::digest::digest;
use crate::compile::digest::file_scope;
use crate::compile::digest::with_global_nodes;
use crate::compile::digest::with_script_nodes;
use crate::compile::node::NodeModel;
use crate::compile::scope::Scope;
use crate::compile::script::GlobalModel;
use crate::compile::script::ScriptModel;
use crate::compile::stubs::scan_stubs;
use crate::compile::stubs::without_stubs;
use crate::compile::stubs::StubScan;
use crate::definitions::EngineFunction;
use crate::definitions::EngineGlobal;
use crate::text::byte_length;
use crate::text::is_lowercase;
use crate::text::lemma_lowercase_idempotent;
use crate::token::TokenModel;
use crate::types::CompileTarget;
use vstd::prelude::*;

verus! {

/// Whether a name is in lower case and no longer than 31 bytes.
pub open spec fn is_proper_name(name: Seq<char>) -> bool {
    is_lowercase(name) && byte_length(name) <= name_limit()
}

/// Whether a script is one of a list.
pub open spec fn is_among(s: ScriptModel, scripts: Seq<ScriptModel>) -> bool {
    exists|j: int| 0 <= j < scripts.len() && scripts[j] == s
}

/// What classification gives has a name in lower case.
pub proof fn lemma_classified_name(token: TokenModel, target: CompileTarget)
    ensures
        match classify(token, target) {
            Ok(DefinitionModel::Global(g)) => is_lowercase(g.name),
            Ok(DefinitionModel::Script(s)) => is_lowercase(s.name),
            Err(_) => true,
        },
{
    match token.children {
        Some(children) => {
            if children.len() > 0 {
                if children.len() > 2 {
                    lemma_lowercase_idempotent(children[2].string);
                }
                if children.len() > 3 {
                    lemma_lowercase_idempotent(children[3].string);
                    match children[3].children {
                        Some(c) => {
                            if c.len() > 0 {
                                lemma_lowercase_idempotent(c[0].string);
                            }
                        },
                        None => {},
                    }
                }
                match children[2].children {
                    Some(c) => {
                        if c.len() > 0 {
                            lemma_lowercase_idempotent(c[0].string);
                        }
                    },
                    None => {},
                }
            }
        },
        None => {},
    }
}

/// All that classification gives has names in lower case.
pub proof fn lemma_classified_names(
    tokens: Seq<TokenModel>,
    target: CompileTarget,
    i: int,
    so_far: Classification,
)
    requires
        0 <= i,
        forall|k: int| 0 <= k < so_far.scripts.len() ==> is_lowercase(
            #[trigger] so_far.scripts[k].name,
        ),
        forall|k: int| 0 <= k < so_far.globals.len() ==> is_lowercase(
            #[trigger] so_far.globals[k].name,
        ),
    ensures
        match classify_all(tokens, target, i, so_far) {
            Ok(d) => (forall|k: int| 0 <= k < d.scripts.len() ==> is_lowercase(
                #[trigger] d.scripts[k].name,
            )) && (forall|k: int| 0 <= k < d.globals.len() ==> is_lowercase(
                #[trigger] d.globals[k].name,
            )),
            Err(_) => true,
        },
    decreases tokens.len() - i,
{
    if i < tokens.len() {
        lemma_classified_name(tokens[i], target);
        match classify(tokens[i], target) {
            Ok(DefinitionModel::Global(g)) => {
                lemma_classified_names(
                    tokens,
                    target,
                    i + 1,
                    Classification { globals: so_far.globals.push(g), ..so_far },
                );
            },
            Ok(DefinitionModel::Script(s)) => {
                lemma_classified_names(
                    tokens,
                    target,
                    i + 1,
                    Classification { scripts: so_far.scripts.push(s), ..so_far },
                );
            },
            Err(_) => {},
        }
    }
}

/// Where the scripts are analyzed, there is a node for each and no name
/// is longer than 31 bytes.
pub proof fn lemma_analyzed_scripts(
    scripts: Seq<ScriptModel>,
    scope: Scope,
    i: int,
    so_far: Seq<NodeModel>,
)
    requires
        0 <= i <= scripts.len(),
    ensures
        match analyze_scripts(scripts, scope, i, so_far) {
            Ok(nodes) => {
                &&& nodes.len() == so_far.len() + scripts.len() - i
                &&& forall|k: int|
                    i <= k < scripts.len() ==> byte_length(#[trigger] scripts[k].name)
                        <= name_limit()
                &&& forall|k: int| 0 <= k < so_far.len() ==> #[trigger] nodes[k] == so_far[k]
                &&& forall|k: int|
                    i <= k < scripts.len() ==> crate::compile::digest::analyze_script(
                        #[trigger] scripts[k],
                        scope,
                    ) == Ok::<NodeModel, crate::error::DiagnosticModel>(
                        nodes[so_far.len() + k - i],
                    )
            },
            Err(_) => true,
        },
    decreases scripts.len() - i,
{
    if i < scripts.len() {
        match crate::compile::digest::analyze_script(scripts[i], scope) {
            Ok(n) => {
                lemma_analyzed_scripts(scripts, scope, i + 1, so_far.push(n));
                match analyze_scripts(scripts, scope, i, so_far) {
                    Ok(nodes) => {
                        assert(nodes[so_far.len() as int] == so_far.push(n)[so_far.len() as int]);
                        assert forall|k: int| 0 <= k < so_far.len() implies #[trigger] nodes[k]
                            == so_far[k] by {
                            assert(nodes[k] == so_far.push(n)[k]);
                        }
                    },
                    Err(_) => {},
                }
            },
            Err(_) => {},
        }
    }
}

/// Where the globals are analyzed, there is a node for each and no name
/// is longer than 31 bytes.
pub proof fn lemma_analyzed_globals(
    globals: Seq<GlobalModel>,
    scope: Scope,
    i: int,
    so_far: Seq<NodeModel>,
)
    requires
        0 <= i <= globals.len(),
    ensures
        match analyze_globals(globals, scope, i, so_far) {
            Ok(nodes) => {
                &&& nodes.len() == so_far.len() + globals.len() - i
                &&& forall|k: int|
                    i <= k < globals.len() ==> byte_length(#[trigger] globals[k].name)
                        <= name_limit()
                &&& forall|k: int| 0 <= k < so_far.len() ==> #[trigger] nodes[k] == so_far[k]
                &&& forall|k: int|
                    i <= k < globals.len() ==> crate::compile::digest::analyze_global(
                        #[trigger] globals[k],
                        scope,
                    ) == Ok::<NodeModel, crate::error::DiagnosticModel>(
                        nodes[so_far.len() + k - i],
                    )
            },
            Err(_) => true,
        },
    decreases globals.len() - i,
{
    if i < globals.len() {
        match crate::compile::digest::analyze_global(globals[i], scope) {
            Ok(n) => {
                lemma_analyzed_globals(globals, scope, i + 1, so_far.push(n));
                match analyze_globals(globals, scope, i, so_far) {
                    Ok(nodes) => {
                        assert(nodes[so_far.len() as int] == so_far.push(n)[so_far.len() as int]);
                        assert forall|k: int| 0 <= k < so_far.len() implies #[trigger] nodes[k]
                            == so_far[k] by {
                            assert(nodes[k] == so_far.push(n)[k]);
                        }
                    },
                    Err(_) => {},
                }
            },
            Err(_) => {},
        }
    }
}

/// Every script that is left when stubs are removed was there before.
pub proof fn lemma_without_stubs_among(scripts: Seq<ScriptModel>)
    ensures
        match without_stubs(scripts) {
            Ok(kept) => forall|k: int| 0 <= k < kept.len() ==> is_among(#[trigger] kept[k], scripts),
            Err(_) => true,
        },
    decreases scripts.len(),
{
    match scan_stubs(scripts, 0) {
        StubScan::Remove(i) => {
            if 0 <= i < scripts.len() {
                let rest = scripts.remove(i);
                lemma_without_stubs_among(rest);
                match without_stubs(rest) {
                    Ok(kept) => {
                        assert forall|k: int| 0 <= k < kept.len() implies is_among(
                            #[trigger] kept[k],
                            scripts,
                        ) by {
                            assert(is_among(kept[k], rest));
                            let j = choose|j: int| 0 <= j < rest.len() && rest[j] == kept[k];
                            if j < i {
                                assert(scripts[j] == kept[k]);
                            } else {
                                assert(scripts[j + 1] == kept[k]);
                            }
                        }
                    },
                    Err(_) => {},
                }
            } else {
                assert forall|k: int| 0 <= k < scripts.len() implies is_among(
                    #[trigger] scripts[k],
                    scripts,
                ) by {}
            }
        },
        StubScan::Clean => {
            assert forall|k: int| 0 <= k < scripts.len() implies is_among(
                #[trigger] scripts[k],
                scripts,
            ) by {}
        },
        StubScan::Fault(_) => {},
    }
}

/// In a compiled file, the name of every script and of every global is in
/// lower case and no longer than 31 bytes, no two scripts share a name,
/// and no two globals share a name.
pub proof fn lemma_names(
    tokens: Seq<TokenModel>,
    target: CompileTarget,
    functions: Seq<EngineFunction>,
    engine_globals: Seq<EngineGlobal>,
)
    ensures
        match digest(tokens, target, functions, engine_globals) {
            Ok(x) => {
                &&& forall|k: int|
                    0 <= k < x.scripts.len() ==> is_proper_name(#[trigger] x.scripts[k].name)
                &&& forall|k: int|
                    0 <= k < x.globals.len() ==> is_proper_name(#[trigger] x.globals[k].name)
                &&& all_distinct(script_names(x.scripts))
                &&& all_distinct(global_names(x.globals))
            },
            Err(_) => true,
        },
{
    match digest(tokens, target, functions, engine_globals) {
        Ok(x) => {
            let start = Classification { scripts: Seq::empty(), globals: Seq::empty() };
            lemma_classified_names(tokens, target, 0, start);
            let definitions = classify_all(tokens, target, 0, start)->Ok_0;
            let scope = file_scope(
                target,
                functions,
                engine_globals,
                definitions.scripts,
                definitions.globals,
            );
            lemma_analyzed_globals(definitions.globals, scope, 0, Seq::empty());
            lemma_analyzed_scripts(definitions.scripts, scope, 0, Seq::empty());
            let global_nodes = analyze_globals(definitions.globals, scope, 0, Seq::empty())->Ok_0;
            let script_nodes = analyze_scripts(definitions.scripts, scope, 0, Seq::empty())->Ok_0;
            let globals = with_global_nodes(definitions.globals, collapse_all(global_nodes));
            let before = with_script_nodes(definitions.scripts, collapse_all(script_nodes));
            lemma_without_stubs_among(before);
            let scripts = without_stubs(before)->Ok_0;
            lemma_distinct(script_names(scripts));
            lemma_distinct(global_names(globals));
            assert(script_names(x.scripts) =~= script_names(scripts));
            assert(global_names(x.globals) =~= global_names(globals));
            assert forall|k: int| 0 <= k < x.scripts.len() implies is_proper_name(
                #[trigger] x.scripts[k].name,
            ) by {
                assert(x.scripts[k].name == scripts[k].name);
                assert(is_among(scripts[k], before));
                let j = choose|j: int| 0 <= j < before.len() && before[j] == scripts[k];
                assert(before[j].name == definitions.scripts[j].name);
            }
            assert forall|k: int| 0 <= k < x.globals.len() implies is_proper_name(
                #[trigger] x.globals[k].name,
            ) by {
                assert(x.globals[k].name == definitions.globals[k].name);
            }
        },
        Err(_) => {},
    }
}

} // verus!
