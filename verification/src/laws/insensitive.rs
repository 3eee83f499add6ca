//! Compiling does not look at the case of what it reads. Two sets of files
//! that are the same in lower case compile to the same, where no parameter
//! of the catalog keeps the capitals of its literals.

use crate::compile::analysis::analyze_call;
use crate::compile::checks::definitions_fault;
use crate::compile::checks::global_names;
use crate::compile::checks::script_names;
use crate::compile::classify::classify;
use crate::compile::classify::classify_all;
use crate::compile::classify::DefinitionModel;
use crate::compile::classify::Classification;
use crate::compile::collapse::collapse_all;
use crate::compile::digest::analyze_global;
use crate::compile::digest::analyze_globals;
use crate::compile::digest::analyze_script;
use crate::compile::digest::analyze_scripts;
use crate::compile::digest::body_tokens;
use crate::compile::digest::digest;
use crate::compile::digest::file_scope;
use crate::compile::digest::finalize;
use crate::compile::digest::global_warnings;
use crate::compile::digest::indexed_global_nodes;
use crate::compile::digest::indexed_script_nodes;
use crate::compile::digest::settle;
use crate::compile::digest::with_global_nodes;
use crate::compile::digest::with_script_nodes;
use crate::compile::digest::Digest;
use crate::compile::emit::compiled_global;
use crate::compile::emit::compiled_script;
use crate::compile::emit::emit_globals;
use crate::compile::emit::emit_scripts;
use crate::compile::emit::Emission;
use crate::compile::indices::indexed;
use crate::compile::indices::indexed_all;
use crate::compile::indices::uninitialized;
use crate::compile::indices::uninitialized_among;
use crate::compile::node::NodeModel;
use crate::compile::scope::Scope;
use crate::compile::script::GlobalModel;
use crate::compile::script::ScriptModel;
use crate::compile::stubs::namesake;
use crate::compile::stubs::scan_stubs;
use crate::compile::stubs::without_stubs;
use crate::compile::stubs::StubScan;
use crate::compiler::compilation;
use crate::compiler::CompilerModel;
use crate::definitions::EngineFunction;
use crate::definitions::EngineGlobal;
use crate::laws::alike::lemma_like_names;
use crate::laws::alike::lemma_parameter_position_like;
use crate::laws::alike::lemma_same_meaning;
use crate::laws::alike::like_global;
use crate::laws::alike::like_globals;
use crate::laws::alike::like_script;
use crate::laws::alike::like_scripts;
use crate::laws::case::folds_all_literals;
use crate::laws::case::lemma_analyze_call_lowered;
use crate::laws::case::lemma_classify_lowered;
use crate::laws::case::like_parameter;
use crate::laws::case::like_parameters;
use crate::laws::case::lowered;
use crate::laws::case::lowered_all;
use crate::laws::references::lemma_global_position_by_names;
use crate::laws::references::lemma_script_position_by_names;
use crate::laws::rescoped::lemma_analyze_call_rescoped;
use crate::token::TokenModel;
use crate::types::CompileEncoding;
use crate::types::CompileTarget;
use vstd::prelude::*;

verus! {

/// Whether two results of classification are alike.
pub open spec fn like_definitions(a: Classification, b: Classification) -> bool {
    like_scripts(a.scripts, b.scripts) && like_globals(a.globals, b.globals)
}

/// Classification does not look at case: the top-level tokens of a file
/// and the same tokens in lower case define the same, but for the tokens
/// that are kept, and fail alike.
pub proof fn lemma_classify_all_lowered(
    tokens: Seq<TokenModel>,
    target: CompileTarget,
    i: int,
    a: Classification,
    b: Classification,
)
    requires
        0 <= i,
        like_definitions(a, b),
    ensures
        match (
            classify_all(tokens, target, i, a),
            classify_all(lowered_all(tokens), target, i, b),
        ) {
            (Ok(x), Ok(y)) => like_definitions(x, y),
            (Err(d), Err(e)) => d == e,
            _ => false,
        },
    decreases tokens.len() - i,
{
    let low = lowered_all(tokens);
    if i < tokens.len() {
        assert(low[i] == lowered(tokens[i]));
        lemma_classify_lowered(tokens[i], target);
        match (classify(tokens[i], target), classify(low[i], target)) {
            (Ok(DefinitionModel::Global(g)), Ok(DefinitionModel::Global(h))) => {
                let x = Classification { globals: a.globals.push(g), ..a };
                let y = Classification { globals: b.globals.push(h), ..b };
                assert forall|k: int| 0 <= k < x.globals.len() implies like_global(
                    #[trigger] x.globals[k],
                    y.globals[k],
                ) by {
                    if k < a.globals.len() {
                        assert(like_global(a.globals[k], b.globals[k]));
                    }
                }
                lemma_classify_all_lowered(tokens, target, i + 1, x, y);
            },
            (Ok(DefinitionModel::Script(s)), Ok(DefinitionModel::Script(t))) => {
                let x = Classification { scripts: a.scripts.push(s), ..a };
                let y = Classification { scripts: b.scripts.push(t), ..b };
                assert forall|k: int| 0 <= k < x.scripts.len() implies like_script(
                    #[trigger] x.scripts[k],
                    y.scripts[k],
                ) by {
                    if k < a.scripts.len() {
                        assert(like_script(a.scripts[k], b.scripts[k]));
                    }
                }
                lemma_classify_all_lowered(tokens, target, i + 1, x, y);
            },
            _ => {},
        }
    }
}

/// Tokens that are the same in lower case have bodies that are the same in
/// lower case, and stand at the same place.
pub proof fn lemma_body_lowered(a: TokenModel, b: TokenModel, offset: int)
    requires
        lowered(a) == lowered(b),
    ensures
        lowered_all(body_tokens(a, offset)) == lowered_all(body_tokens(b, offset)),
        a.file == b.file,
        a.line == b.line,
        a.column == b.column,
{
    assert(lowered(a).file == a.file && lowered(b).file == b.file);
    assert(lowered(a).line == a.line && lowered(b).line == b.line);
    assert(lowered(a).column == a.column && lowered(b).column == b.column);
    match (a.children, b.children) {
        (Some(c), Some(d)) => {
            assert(lowered(a).children == Some(lowered_all(c)));
            assert(lowered(b).children == Some(lowered_all(d)));
            assert(lowered_all(c).len() == c.len());
            assert(lowered_all(d).len() == d.len());
            if 0 <= offset <= c.len() {
                let x = c.subrange(offset, c.len() as int);
                let y = d.subrange(offset, d.len() as int);
                assert forall|k: int| 0 <= k < x.len() implies lowered_all(x)[k] == lowered_all(
                    y,
                )[k] by {
                    assert(lowered_all(c)[offset + k] == lowered(c[offset + k]));
                    assert(lowered_all(d)[offset + k] == lowered(d[offset + k]));
                }
                assert(lowered_all(x) =~= lowered_all(y));
            }
        },
        (None, None) => {},
        _ => {
            assert(lowered(a).children is Some <==> a.children is Some);
            assert(lowered(b).children is Some <==> b.children is Some);
        },
    }
}

/// A body that is analyzed as the arguments of `begin` has the same node
/// as the same body in another case and in a scope of the same meaning.
pub proof fn lemma_body_insensitive(
    a: TokenModel,
    b: TokenModel,
    offset: int,
    expected: crate::value_type::ValueType,
    s: Scope,
    t: Scope,
)
    requires
        lowered(a) == lowered(b),
        folds_all_literals(s),
        crate::laws::rescoped::same_meaning(s, t),
    ensures
        analyze_call("begin"@, a, expected, body_tokens(a, offset), s) == analyze_call(
            "begin"@,
            b,
            expected,
            body_tokens(b, offset),
            t,
        ),
{
    lemma_body_lowered(a, b, offset);
    lemma_analyze_call_lowered("begin"@, a, b, expected, body_tokens(a, offset), s);
    lemma_analyze_call_lowered("begin"@, b, b, expected, body_tokens(b, offset), s);
    lemma_analyze_call_rescoped("begin"@, b, expected, body_tokens(b, offset), s, t);
}

/// Globals that are alike have the same nodes in scopes that are alike.
pub proof fn lemma_analyze_globals_insensitive(
    a: Seq<GlobalModel>,
    b: Seq<GlobalModel>,
    s: Scope,
    t: Scope,
    i: int,
    so_far: Seq<NodeModel>,
)
    requires
        0 <= i,
        like_globals(a, b),
        folds_all_literals(s),
        s.target == t.target,
        s.functions == t.functions,
        s.engine_globals == t.engine_globals,
        like_scripts(s.scripts, t.scripts),
        like_globals(s.globals, t.globals),
    ensures
        analyze_globals(a, s, i, so_far) == analyze_globals(b, t, i, so_far),
    decreases a.len() - i,
{
    if i < a.len() {
        assert(like_global(a[i], b[i]));
        let own_s = Scope { locals: Seq::empty(), ..s };
        let own_t = Scope { locals: Seq::empty(), ..t };
        lemma_same_meaning(own_s, own_t);
        lemma_body_insensitive(
            a[i].original_token,
            b[i].original_token,
            3,
            a[i].value_type,
            own_s,
            own_t,
        );
        lemma_body_lowered(a[i].original_token, b[i].original_token, 3);
        assert(analyze_global(a[i], s) == analyze_global(b[i], t));
        match analyze_global(a[i], s) {
            Ok(n) => {
                lemma_analyze_globals_insensitive(a, b, s, t, i + 1, so_far.push(n));
            },
            Err(_) => {},
        }
    }
}

/// Scripts that are alike have the same nodes in scopes that are alike.
pub proof fn lemma_analyze_scripts_insensitive(
    a: Seq<ScriptModel>,
    b: Seq<ScriptModel>,
    s: Scope,
    t: Scope,
    i: int,
    so_far: Seq<NodeModel>,
)
    requires
        0 <= i,
        like_scripts(a, b),
        folds_all_literals(s),
        s.target == t.target,
        s.functions == t.functions,
        s.engine_globals == t.engine_globals,
        like_scripts(s.scripts, t.scripts),
        like_globals(s.globals, t.globals),
    ensures
        analyze_scripts(a, s, i, so_far) == analyze_scripts(b, t, i, so_far),
    decreases a.len() - i,
{
    if i < a.len() {
        assert(like_script(a[i], b[i]));
        let own_s = Scope { locals: a[i].parameters, ..s };
        let own_t = Scope { locals: b[i].parameters, ..t };
        lemma_same_meaning(own_s, own_t);
        let offset = a[i].script_type.body_offset() as int;
        lemma_body_insensitive(
            a[i].original_token,
            b[i].original_token,
            offset,
            a[i].return_type,
            own_s,
            own_t,
        );
        lemma_body_lowered(a[i].original_token, b[i].original_token, offset);
        assert(analyze_script(a[i], s) == analyze_script(b[i], t));
        match analyze_script(a[i], s) {
            Ok(n) => {
                lemma_analyze_scripts_insensitive(a, b, s, t, i + 1, so_far.push(n));
            },
            Err(_) => {},
        }
    }
}

/// Lists of scripts that are alike give a script the same namesake.
pub proof fn lemma_namesake_like(a: Seq<ScriptModel>, b: Seq<ScriptModel>, i: int, j: int)
    requires
        like_scripts(a, b),
        0 <= j,
    ensures
        namesake(a, i, j) == namesake(b, i, j),
    decreases a.len() - j,
{
    if j < a.len() && 0 <= i < a.len() {
        assert(like_script(a[j], b[j]));
        assert(like_script(a[i], b[i]));
        lemma_namesake_like(a, b, i, j + 1);
    }
}

/// A scan for stubs finds the same in lists of scripts that are alike.
pub proof fn lemma_scan_like(a: Seq<ScriptModel>, b: Seq<ScriptModel>, i: int)
    requires
        like_scripts(a, b),
        0 <= i,
    ensures
        scan_stubs(a, i) == scan_stubs(b, i),
    decreases a.len() - i,
{
    if i < a.len() {
        assert(like_script(a[i], b[i]));
        lemma_namesake_like(a, b, i, 0);
        crate::laws::references::lemma_namesake(a, i, 0);
        match namesake(a, i, 0) {
            Some(j) => {
                assert(like_script(a[j], b[j]));
                lemma_body_lowered(a[i].original_token, b[i].original_token, 0);
            },
            None => {},
        }
        lemma_scan_like(a, b, i + 1);
    }
}

/// Removing stubs from lists of scripts that are alike leaves lists that
/// are alike, or fails alike.
pub proof fn lemma_without_stubs_like(a: Seq<ScriptModel>, b: Seq<ScriptModel>)
    requires
        like_scripts(a, b),
    ensures
        match (without_stubs(a), without_stubs(b)) {
            (Ok(x), Ok(y)) => like_scripts(x, y),
            (Err(d), Err(e)) => d == e,
            _ => false,
        },
    decreases a.len(),
{
    lemma_scan_like(a, b, 0);
    match scan_stubs(a, 0) {
        StubScan::Remove(i) => {
            if 0 <= i < a.len() {
                let x = a.remove(i);
                let y = b.remove(i);
                assert forall|k: int| 0 <= k < x.len() implies like_script(
                    #[trigger] x[k],
                    y[k],
                ) by {
                    if k < i {
                        assert(like_script(a[k], b[k]));
                    } else {
                        assert(like_script(a[k + 1], b[k + 1]));
                    }
                }
                lemma_without_stubs_like(x, y);
            }
        },
        _ => {},
    }
}

/// The rules on names and counts find the same fault in definitions that
/// are alike.
pub proof fn lemma_definitions_fault_like(
    a: Seq<ScriptModel>,
    b: Seq<ScriptModel>,
    c: Seq<GlobalModel>,
    d: Seq<GlobalModel>,
)
    requires
        like_scripts(a, b),
        like_globals(c, d),
    ensures
        definitions_fault(a, c) == definitions_fault(b, d),
{
    lemma_like_names(a, b, c, d);
    crate::compile::checks::lemma_first_repeated(script_names(a), 0);
    crate::compile::checks::lemma_first_repeated(global_names(c), 0);
    assert(script_names(a).len() == a.len());
    assert(global_names(c).len() == c.len());
    match crate::compile::checks::first_repeated(script_names(a), 0) {
        Some(i) => {
            assert(like_script(a[i], b[i]));
            lemma_body_lowered(a[i].original_token, b[i].original_token, 0);
        },
        None => {},
    }
    match crate::compile::checks::first_repeated(global_names(c), 0) {
        Some(i) => {
            assert(like_global(c[i], d[i]));
            lemma_body_lowered(c[i].original_token, d[i].original_token, 0);
        },
        None => {},
    }
    if a.len() > 32767 {
        assert(like_script(a[32767], b[32767]));
        lemma_body_lowered(a[32767].original_token, b[32767].original_token, 0);
    }
    if c.len() > 32767 {
        assert(like_global(c[32767], d[32767]));
        lemma_body_lowered(c[32767].original_token, d[32767].original_token, 0);
    }
}

/// Whether two scopes have the same catalog, the same names of scripts and
/// globals, and parameters of the same names.
pub open spec fn same_names(s: Scope, t: Scope) -> bool {
    &&& s.target == t.target
    &&& s.functions == t.functions
    &&& s.engine_globals == t.engine_globals
    &&& script_names(s.scripts) == script_names(t.scripts)
    &&& global_names(s.globals) == global_names(t.globals)
    &&& like_parameters(s.locals, t.locals)
}

/// Indices are given out alike in scopes of the same names.
pub proof fn lemma_indexed_like(n: NodeModel, s: Scope, t: Scope)
    requires
        same_names(s, t),
    ensures
        indexed(n, s) == indexed(n, t),
    decreases n,
{
    assert(s.scripts.len() == script_names(s.scripts).len());
    assert(t.scripts.len() == script_names(t.scripts).len());
    assert(s.globals.len() == global_names(s.globals).len());
    assert(t.globals.len() == global_names(t.globals).len());
    if n.string_data is Some {
        let name = n.string_data->0;
        lemma_script_position_by_names(s.scripts, t.scripts, name, s.scripts.len() as int);
        lemma_global_position_by_names(s.globals, t.globals, name, s.globals.len() as int);
        lemma_parameter_position_like(name, s.locals, t.locals, 0);
    }
    match n.parameters {
        Some(p) => {
            if n.node_type is FunctionCall {
                assert forall|i: int| 0 <= i < p.len() implies indexed(p[i], s) == indexed(
                    p[i],
                    t,
                ) by {
                    lemma_indexed_like(p[i], s, t);
                }
                assert(indexed_all(p, s) =~= indexed_all(p, t));
            }
        },
        None => {},
    }
}

/// The warnings for an initializer are the same in scopes of the same
/// names.
pub proof fn lemma_uninitialized_like(n: NodeModel, s: Scope, t: Scope, from: int)
    requires
        same_names(s, t),
    ensures
        uninitialized(n, s, from) == uninitialized(n, t, from),
    decreases n, 0nat,
{
    assert(s.globals.len() == global_names(s.globals).len());
    assert(t.globals.len() == global_names(t.globals).len());
    if n.string_data is Some {
        lemma_global_position_by_names(
            s.globals,
            t.globals,
            n.string_data->0,
            s.globals.len() as int,
        );
    }
    match n.parameters {
        Some(p) => {
            lemma_uninitialized_among_like(p, s, t, from, p.len() as int);
        },
        None => {},
    }
}

/// The warnings for a list of trees are the same in scopes of the same
/// names.
pub proof fn lemma_uninitialized_among_like(
    p: Seq<NodeModel>,
    s: Scope,
    t: Scope,
    from: int,
    end: int,
)
    requires
        same_names(s, t),
    ensures
        uninitialized_among(p, s, from, end) == uninitialized_among(p, t, from, end),
    decreases p, end,
{
    if 0 < end <= p.len() {
        lemma_uninitialized_among_like(p, s, t, from, end - 1);
        lemma_uninitialized_like(p[end - 1], s, t, from);
    }
}

/// The warnings for the globals of a file are the same in scopes of the
/// same names.
pub proof fn lemma_global_warnings_like(nodes: Seq<NodeModel>, s: Scope, t: Scope, end: int)
    requires
        same_names(s, t),
    ensures
        global_warnings(nodes, s, end) == global_warnings(nodes, t, end),
    decreases end,
{
    if 0 < end <= nodes.len() {
        lemma_global_warnings_like(nodes, s, t, end - 1);
        lemma_uninitialized_like(nodes[end - 1], s, t, end - 1);
    }
}

/// Whether two results of the passes are alike.
pub open spec fn like_digest(x: Digest, y: Digest) -> bool {
    like_scripts(x.scripts, y.scripts) && like_globals(x.globals, y.globals) && x.warnings
        == y.warnings
}

/// The last pass gives results that are alike for definitions that are
/// alike, or fails alike.
pub proof fn lemma_finalize_like(
    target: CompileTarget,
    functions: Seq<EngineFunction>,
    engine_globals: Seq<EngineGlobal>,
    a: Seq<ScriptModel>,
    b: Seq<ScriptModel>,
    c: Seq<GlobalModel>,
    d: Seq<GlobalModel>,
)
    requires
        like_scripts(a, b),
        like_globals(c, d),
    ensures
        match (
            finalize(target, functions, engine_globals, a, c),
            finalize(target, functions, engine_globals, b, d),
        ) {
            (Ok(x), Ok(y)) => like_digest(x, y),
            (Err(e), Err(f)) => e == f,
            _ => false,
        },
{
    lemma_like_names(a, b, c, d);
    let s = file_scope(target, functions, engine_globals, a, c);
    let t = file_scope(target, functions, engine_globals, b, d);
    assert(like_parameters(s.locals, t.locals));
    let script_nodes = indexed_script_nodes(a, s);
    let other_script_nodes = indexed_script_nodes(b, t);
    assert forall|k: int| 0 <= k < a.len() implies script_nodes[k] == other_script_nodes[k] by {
        assert(like_script(a[k], b[k]));
        lemma_indexed_like(
            a[k].node,
            Scope { locals: a[k].parameters, ..s },
            Scope { locals: b[k].parameters, ..t },
        );
    }
    assert(script_nodes =~= other_script_nodes);
    let global_nodes = indexed_global_nodes(c, s);
    let other_global_nodes = indexed_global_nodes(d, t);
    assert forall|k: int| 0 <= k < c.len() implies global_nodes[k] == other_global_nodes[k] by {
        assert(like_global(c[k], d[k]));
        lemma_indexed_like(c[k].node, s, t);
    }
    assert(global_nodes =~= other_global_nodes);
    lemma_global_warnings_like(global_nodes, s, t, global_nodes.len() as int);
    match (
        finalize(target, functions, engine_globals, a, c),
        finalize(target, functions, engine_globals, b, d),
    ) {
        (Ok(x), Ok(y)) => {
            assert forall|k: int| 0 <= k < x.scripts.len() implies like_script(
                #[trigger] x.scripts[k],
                y.scripts[k],
            ) by {
                assert(like_script(a[k], b[k]));
            }
            assert forall|k: int| 0 <= k < x.globals.len() implies like_global(
                #[trigger] x.globals[k],
                y.globals[k],
            ) by {
                assert(like_global(c[k], d[k]));
            }
        },
        _ => {},
    }
}

/// The passes after analysis give results that are alike for definitions
/// that are alike, or fail alike.
pub proof fn lemma_settle_like(
    target: CompileTarget,
    functions: Seq<EngineFunction>,
    engine_globals: Seq<EngineGlobal>,
    a: Classification,
    b: Classification,
    global_nodes: Seq<NodeModel>,
    script_nodes: Seq<NodeModel>,
)
    requires
        like_definitions(a, b),
    ensures
        match (
            settle(target, functions, engine_globals, a, global_nodes, script_nodes),
            settle(target, functions, engine_globals, b, global_nodes, script_nodes),
        ) {
            (Ok(x), Ok(y)) => like_digest(x, y),
            (Err(e), Err(f)) => e == f,
            _ => false,
        },
{
    let c = with_global_nodes(a.globals, collapse_all(global_nodes));
    let d = with_global_nodes(b.globals, collapse_all(global_nodes));
    assert forall|k: int| 0 <= k < c.len() implies like_global(#[trigger] c[k], d[k]) by {
        assert(like_global(a.globals[k], b.globals[k]));
    }
    let x = with_script_nodes(a.scripts, collapse_all(script_nodes));
    let y = with_script_nodes(b.scripts, collapse_all(script_nodes));
    assert forall|k: int| 0 <= k < x.len() implies like_script(#[trigger] x[k], y[k]) by {
        assert(like_script(a.scripts[k], b.scripts[k]));
    }
    lemma_without_stubs_like(x, y);
    match (without_stubs(x), without_stubs(y)) {
        (Ok(kept), Ok(other)) => {
            lemma_definitions_fault_like(kept, other, c, d);
            lemma_finalize_like(target, functions, engine_globals, kept, other, c, d);
        },
        _ => {},
    }
}

/// The passes give results that are alike for a token forest and the same
/// forest in lower case, or fail alike.
pub proof fn lemma_digest_lowered(
    tokens: Seq<TokenModel>,
    target: CompileTarget,
    functions: Seq<EngineFunction>,
    engine_globals: Seq<EngineGlobal>,
)
    requires
        folds_all_literals(
            file_scope(target, functions, engine_globals, Seq::empty(), Seq::empty()),
        ),
    ensures
        match (
            digest(tokens, target, functions, engine_globals),
            digest(lowered_all(tokens), target, functions, engine_globals),
        ) {
            (Ok(x), Ok(y)) => like_digest(x, y),
            (Err(e), Err(f)) => e == f,
            _ => false,
        },
{
    let start = Classification { scripts: Seq::empty(), globals: Seq::empty() };
    lemma_classify_all_lowered(tokens, target, 0, start, start);
    match (
        classify_all(tokens, target, 0, start),
        classify_all(lowered_all(tokens), target, 0, start),
    ) {
        (Ok(a), Ok(b)) => {
            let s = file_scope(target, functions, engine_globals, a.scripts, a.globals);
            let t = file_scope(target, functions, engine_globals, b.scripts, b.globals);
            assert(folds_all_literals(s));
            lemma_analyze_globals_insensitive(a.globals, b.globals, s, t, 0, Seq::empty());
            lemma_analyze_scripts_insensitive(a.scripts, b.scripts, s, t, 0, Seq::empty());
            match (
                analyze_globals(a.globals, s, 0, Seq::empty()),
                analyze_scripts(a.scripts, s, 0, Seq::empty()),
            ) {
                (Ok(global_nodes), Ok(script_nodes)) => {
                    lemma_settle_like(
                        target,
                        functions,
                        engine_globals,
                        a,
                        b,
                        global_nodes,
                        script_nodes,
                    );
                },
                _ => {},
            }
        },
        _ => {},
    }
}

/// Scripts that are alike are emitted alike.
pub proof fn lemma_emit_scripts_like(
    a: Seq<ScriptModel>,
    b: Seq<ScriptModel>,
    i: int,
    so_far: Emission,
    encoding: CompileEncoding,
)
    requires
        0 <= i,
        like_scripts(a, b),
    ensures
        emit_scripts(a, i, so_far, encoding) == emit_scripts(b, i, so_far, encoding),
    decreases a.len() - i,
{
    if i < a.len() {
        assert(like_script(a[i], b[i]));
        lemma_body_lowered(a[i].original_token, b[i].original_token, 0);
        let f = so_far.nodes.len() as usize;
        let x = compiled_script(a[i], f, encoding);
        let y = compiled_script(b[i], f, encoding);
        assert forall|k: int| 0 <= k < a[i].parameters.len() implies x.parameters[k]
            == y.parameters[k] by {
            assert(like_parameter(a[i].parameters[k], b[i].parameters[k]));
            lemma_body_lowered(
                a[i].parameters[k].original_token,
                b[i].parameters[k].original_token,
                0,
            );
        }
        assert(x.parameters =~= y.parameters);
        lemma_emit_scripts_like(
            a,
            b,
            i + 1,
            Emission {
                scripts: so_far.scripts.push(x),
                nodes: so_far.nodes + crate::compile::emit::emitted(
                    a[i].node,
                    so_far.nodes.len() as int,
                    encoding,
                ),
                ..so_far
            },
            encoding,
        );
    }
}

/// Globals that are alike are emitted alike.
pub proof fn lemma_emit_globals_like(
    a: Seq<GlobalModel>,
    b: Seq<GlobalModel>,
    i: int,
    so_far: Emission,
    encoding: CompileEncoding,
)
    requires
        0 <= i,
        like_globals(a, b),
    ensures
        emit_globals(a, i, so_far, encoding) == emit_globals(b, i, so_far, encoding),
    decreases a.len() - i,
{
    if i < a.len() {
        assert(like_global(a[i], b[i]));
        lemma_body_lowered(a[i].original_token, b[i].original_token, 0);
        let f = so_far.nodes.len() as usize;
        lemma_emit_globals_like(
            a,
            b,
            i + 1,
            Emission {
                globals: so_far.globals.push(compiled_global(a[i], f, encoding)),
                nodes: so_far.nodes + crate::compile::emit::emitted(
                    a[i].node,
                    so_far.nodes.len() as int,
                    encoding,
                ),
                ..so_far
            },
            encoding,
        );
    }
}

/// Whether two results of compiling are the same but for the warnings.
pub open spec fn same_but_warnings(
    x: Result<crate::compile::types::CompiledScriptDataModel, crate::error::CompileErrorModel>,
    y: Result<crate::compile::types::CompiledScriptDataModel, crate::error::CompileErrorModel>,
) -> bool {
    match (x, y) {
        (Ok(a), Ok(b)) => a.scripts == b.scripts && a.globals == b.globals && a.nodes == b.nodes
            && a.files == b.files,
        (Err(d), Err(e)) => d == e,
        _ => false,
    }
}

/// A compiler that gives no warnings about capitals.
pub open spec fn quiet(c: CompilerModel) -> CompilerModel {
    CompilerModel { warn_capitals: false, ..c }
}

/// Asking for warnings about capitals changes nothing but the warnings.
pub proof fn lemma_quiet(c: CompilerModel)
    ensures
        same_but_warnings(compilation(c), compilation(quiet(c))),
{
    assert(crate::compiler::file_table(c) =~= crate::compiler::file_table(quiet(c)));
}

/// Compiling does not look at case. Two compilers for the same target,
/// encoding and catalog that have read files of the same names, whose
/// tokens are the same in lower case, compile to the same scripts,
/// globals, nodes and file table, or to the same error; and to the same
/// warnings where neither is asked for warnings about capitals. This is
/// so where no parameter of the catalog keeps the capitals of its
/// literals.
pub proof fn lemma_compile_case_insensitive(a: CompilerModel, b: CompilerModel)
    requires
        a.target == b.target,
        a.encoding == b.encoding,
        a.functions == b.functions,
        a.globals == b.globals,
        a.files == b.files,
        lowered_all(a.tokens) == lowered_all(b.tokens),
        folds_all_literals(
            file_scope(a.target, a.functions, a.globals, Seq::empty(), Seq::empty()),
        ),
    ensures
        same_but_warnings(compilation(a), compilation(b)),
        !a.warn_capitals && !b.warn_capitals ==> compilation(a) == compilation(b),
{
    lemma_quiet(a);
    lemma_quiet(b);
    lemma_compile_lowered(quiet(a));
    lemma_compile_lowered(quiet(b));
    assert((CompilerModel { tokens: lowered_all(a.tokens), ..quiet(a) }) == (CompilerModel {
        tokens: lowered_all(b.tokens),
        ..quiet(b)
    }));
    if !a.warn_capitals && !b.warn_capitals {
        assert(quiet(a) == a);
        assert(quiet(b) == b);
    }
}

/// A compiler that gives no warnings about capitals compiles what it has
/// read to the same as the same compiler with all that it has read in
/// lower case.
pub proof fn lemma_compile_lowered(c: CompilerModel)
    requires
        !c.warn_capitals,
        folds_all_literals(
            file_scope(c.target, c.functions, c.globals, Seq::empty(), Seq::empty()),
        ),
    ensures
        compilation(c) == compilation(CompilerModel { tokens: lowered_all(c.tokens), ..c }),
{
    let low = CompilerModel { tokens: lowered_all(c.tokens), ..c };
    lemma_digest_lowered(c.tokens, c.target, c.functions, c.globals);
    match (
        digest(c.tokens, c.target, c.functions, c.globals),
        digest(low.tokens, c.target, c.functions, c.globals),
    ) {
        (Ok(x), Ok(y)) => {
            let start = Emission {
                scripts: Seq::empty(),
                globals: Seq::empty(),
                nodes: Seq::empty(),
            };
            lemma_emit_scripts_like(x.scripts, y.scripts, 0, start, c.encoding);
            lemma_emit_globals_like(
                x.globals,
                y.globals,
                0,
                emit_scripts(x.scripts, 0, start, c.encoding),
                c.encoding,
            );
            assert(crate::compiler::file_table(c) =~= crate::compiler::file_table(low));
            assert(crate::compiler::capital_warnings(c) + x.warnings =~= x.warnings);
            assert(crate::compiler::capital_warnings(low) + y.warnings =~= y.warnings);
            assert(crate::compiler::reported_all(
                c,
                crate::error::CompileErrorType::Warning,
                x.warnings,
            ) =~= crate::compiler::reported_all(
                low,
                crate::error::CompileErrorType::Warning,
                y.warnings,
            ));
        },
        _ => {},
    }
}

} // verus!
