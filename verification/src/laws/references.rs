//! Every reference in a compiled file carries the index of what it names.

use crate::compile::checks::global_names;
use crate::compile::checks::script_names;
use crate::compile::classify::classify;
use crate::compile::classify::classify_all;
use crate::compile::classify::classify_parameters;
use crate::compile::classify::DefinitionModel;
use crate::compile::classify::Classification;
use crate::compile::collapse::collapse;
use crate::compile::collapse::collapse_all;
use crate::compile::collapse::is_single_begin;
use crate::compile::digest::analyze_globals;
use crate::compile::digest::analyze_scripts;
use crate::compile::digest::digest;
use crate::compile::digest::file_scope;
use crate::compile::digest::with_global_nodes;
use crate::compile::digest::with_script_nodes;
use crate::compile::indices::engine_index;
use crate::compile::indices::global_index;
use crate::compile::indices::indexed;
use crate::compile::indices::indexed_all;
use crate::compile::indices::script_index;
use crate::compile::node::NodeModel;
use crate::compile::scope::global_position;
use crate::compile::scope::script_position;
use crate::compile::scope::Scope;
use crate::compile::script::parameter_position;
use crate::compile::script::lemma_parameter_position;
use crate::compile::script::GlobalModel;
use crate::compile::script::ScriptModel;
use crate::compile::script::ScriptParameterModel;
use crate::compile::stubs::namesake;
use crate::compile::stubs::scan_stubs;
use crate::compile::stubs::without_stubs;
use crate::compile::stubs::StubScan;
use crate::definitions::engine_function_position;
use crate::definitions::EngineFunction;
use crate::definitions::EngineGlobal;
use crate::laws::names::is_among;
use crate::laws::names::lemma_analyzed_globals;
use crate::laws::names::lemma_analyzed_scripts;
use crate::laws::names::lemma_without_stubs_among;
use crate::laws::sound::is_known;
use crate::laws::sound::is_sound;
use crate::laws::sound::lemma_analyze_call_sound;
use crate::token::TokenModel;
use crate::types::CompileTarget;
use crate::types::NodeDataModel;
use crate::types::NodeType;
use crate::types::PrimitiveType;
use crate::value_type::ValueType;
use vstd::prelude::*;

verus! {

/// The position that a name has among scripts is the last one that holds
/// the name.
pub proof fn lemma_script_position(scripts: Seq<ScriptModel>, name: Seq<char>, end: int)
    requires
        0 <= end <= scripts.len(),
    ensures
        match script_position(scripts, name, end) {
            Some(p) => 0 <= p < end && scripts[p].name == name && forall|k: int|
                p < k < end ==> scripts[k].name != name,
            None => forall|k: int| 0 <= k < end ==> scripts[k].name != name,
        },
    decreases end,
{
    if end > 0 && scripts[end - 1].name != name {
        lemma_script_position(scripts, name, end - 1);
    }
}

/// The position that a name has among globals is the last one that holds
/// the name.
pub proof fn lemma_global_position(globals: Seq<GlobalModel>, name: Seq<char>, end: int)
    requires
        0 <= end <= globals.len(),
    ensures
        match global_position(globals, name, end) {
            Some(p) => 0 <= p < end && globals[p].name == name && forall|k: int|
                p < k < end ==> globals[k].name != name,
            None => forall|k: int| 0 <= k < end ==> globals[k].name != name,
        },
    decreases end,
{
    if end > 0 && globals[end - 1].name != name {
        lemma_global_position(globals, name, end - 1);
    }
}

/// The function of the engine that a name stands for has the name and
/// exists on the target.
pub proof fn lemma_engine_position(
    functions: Seq<EngineFunction>,
    target: CompileTarget,
    name: Seq<char>,
    end: int,
)
    requires
        0 <= end <= functions.len(),
    ensures
        match engine_function_position(functions, target, name, end) {
            Some(p) => 0 <= p < end && functions[p].name@ == name
                && functions[p].availability.index_on(target) is Some,
            None => true,
        },
    decreases end,
{
    if end > 0 && !(functions[end - 1].name@ == name && functions[end - 1].availability.index_on(
        target,
    ) is Some) {
        lemma_engine_position(functions, target, name, end - 1);
    }
}

/// Lists of scripts with the same names give a name the same position.
pub proof fn lemma_script_position_by_names(
    a: Seq<ScriptModel>,
    b: Seq<ScriptModel>,
    name: Seq<char>,
    end: int,
)
    requires
        script_names(a) == script_names(b),
    ensures
        script_position(a, name, end) == script_position(b, name, end),
    decreases end,
{
    assert(a.len() == script_names(a).len());
    assert(b.len() == script_names(b).len());
    if 0 < end <= a.len() {
        assert(a[end - 1].name == script_names(a)[end - 1]);
        assert(b[end - 1].name == script_names(b)[end - 1]);
        lemma_script_position_by_names(a, b, name, end - 1);
    }
}

/// Lists of globals with the same names give a name the same position.
pub proof fn lemma_global_position_by_names(
    a: Seq<GlobalModel>,
    b: Seq<GlobalModel>,
    name: Seq<char>,
    end: int,
)
    requires
        global_names(a) == global_names(b),
    ensures
        global_position(a, name, end) == global_position(b, name, end),
    decreases end,
{
    assert(a.len() == global_names(a).len());
    assert(b.len() == global_names(b).len());
    if 0 < end <= a.len() {
        assert(a[end - 1].name == global_names(a)[end - 1]);
        assert(b[end - 1].name == global_names(b)[end - 1]);
        lemma_global_position_by_names(a, b, name, end - 1);
    }
}

/// Whether two scopes agree on all but their scripts, and on the names of
/// their globals.
pub open spec fn agree(a: Scope, b: Scope) -> bool {
    &&& a.target == b.target
    &&& a.functions == b.functions
    &&& a.engine_globals == b.engine_globals
    &&& a.locals == b.locals
    &&& global_names(a.globals) == global_names(b.globals)
}

/// Whether every name that calls a script in one scope calls one in the
/// other.
pub open spec fn keeps_scripts(a: Scope, b: Scope) -> bool {
    forall|name: Seq<char>| #[trigger]
        script_position(a.scripts, name, a.scripts.len() as int) is Some ==> script_position(
            b.scripts,
            name,
            b.scripts.len() as int,
        ) is Some
}

/// A tree that is sound in a scope is sound in every scope that agrees
/// with it and keeps its scripts.
pub proof fn lemma_sound_rescoped(n: NodeModel, a: Scope, b: Scope)
    requires
        is_sound(n, a),
        agree(a, b),
        keeps_scripts(a, b),
    ensures
        is_sound(n, b),
    decreases n,
{
    if n.string_data is Some {
        let name = n.string_data->0;
        lemma_global_position_by_names(a.globals, b.globals, name, a.globals.len() as int);
        assert(a.globals.len() == global_names(a.globals).len());
        assert(b.globals.len() == global_names(b.globals).len());
        assert(script_position(a.scripts, name, a.scripts.len() as int) is Some
            ==> script_position(b.scripts, name, b.scripts.len() as int) is Some);
    }
    assert(is_known(n, b));
    if n.parameters is Some {
        let p = n.parameters->0;
        assert forall|i: int| 0 <= i < p.len() implies is_sound(#[trigger] p[i], b) by {
            assert(is_sound(n.parameters->0[i], a));
            lemma_sound_rescoped(p[i], a, b);
        }
    }
}

/// Collapsing `begin` leaves a sound tree sound.
pub proof fn lemma_collapse_sound(n: NodeModel, scope: Scope)
    requires
        is_sound(n, scope),
    ensures
        is_sound(collapse(n), scope),
    decreases n,
{
    if is_single_begin(n) {
        assert(is_sound(n.parameters->0[0], scope));
        lemma_collapse_sound(n.parameters->0[0], scope);
    } else if n.node_type is FunctionCall && n.parameters is Some {
        let p = n.parameters->0;
        let r = collapse(n);
        assert(r.parameters->0 == collapse_all(p));
        assert forall|i: int| 0 <= i < r.parameters->0.len() implies is_sound(
            #[trigger] r.parameters->0[i],
            scope,
        ) by {
            assert(is_sound(n.parameters->0[i], scope));
            lemma_collapse_sound(p[i], scope);
        }
    }
}

/// A stub that is found to have a namesake has one at a position of the
/// list other than its own.
pub proof fn lemma_namesake(scripts: Seq<ScriptModel>, i: int, j: int)
    requires
        0 <= j,
    ensures
        match namesake(scripts, i, j) {
            Some(k) => j <= k < scripts.len() && k != i && 0 <= i < scripts.len()
                && scripts[k].name == scripts[i].name,
            None => true,
        },
    decreases scripts.len() - j,
{
    if j < scripts.len() && 0 <= i < scripts.len() && !(j != i && scripts[j].name
        == scripts[i].name) {
        lemma_namesake(scripts, i, j + 1);
    }
}

/// A stub that a scan wants removed has a namesake.
pub proof fn lemma_scan_namesake(scripts: Seq<ScriptModel>, i: int)
    requires
        0 <= i,
    ensures
        match scan_stubs(scripts, i) {
            StubScan::Remove(r) => i <= r < scripts.len() && namesake(scripts, r, 0) is Some,
            _ => true,
        },
    decreases scripts.len() - i,
{
    if i < scripts.len() {
        if scripts[i].script_type == crate::types::ScriptType::Stub && namesake(scripts, i, 0)
            is Some {
        } else {
            lemma_scan_namesake(scripts, i + 1);
        }
    }
}

/// Every name that calls a script before stubs are removed calls one
/// after.
pub proof fn lemma_without_stubs_keeps_names(scripts: Seq<ScriptModel>, name: Seq<char>)
    requires
        script_position(scripts, name, scripts.len() as int) is Some,
    ensures
        match without_stubs(scripts) {
            Ok(kept) => script_position(kept, name, kept.len() as int) is Some,
            Err(_) => true,
        },
    decreases scripts.len(),
{
    match scan_stubs(scripts, 0) {
        StubScan::Remove(i) => {
            lemma_scan_namesake(scripts, 0);
            let rest = scripts.remove(i);
            lemma_namesake(scripts, i, 0);
            let j = namesake(scripts, i, 0)->0;
            lemma_script_position(scripts, name, scripts.len() as int);
            let p = script_position(scripts, name, scripts.len() as int)->0;
            // the name is still held after the removal: by the same script,
            // or, where that script is the stub, by its namesake
            let q = if p == i {
                j
            } else {
                p
            };
            let at = if q < i {
                q
            } else {
                q - 1
            };
            assert(rest[at] == scripts[q]);
            assert(rest[at].name == name);
            lemma_script_position(rest, name, rest.len() as int);
            lemma_without_stubs_keeps_names(rest, name);
        },
        _ => {},
    }
}

/// Whether a node carries the index of what it names.
pub open spec fn is_settled(n: NodeModel, scope: Scope) -> bool {
    match n.node_type {
        NodeType::FunctionCall(true) => {
            &&& n.string_data is Some
            &&& engine_index(scope, n.string_data->0) is Some
            &&& n.index == engine_index(scope, n.string_data->0)
        },
        NodeType::FunctionCall(false) => {
            &&& n.string_data is Some
            &&& script_index(scope, n.string_data->0) is Some
            &&& n.index == Some(script_index(scope, n.string_data->0)->0 as u16)
        },
        NodeType::Primitive(PrimitiveType::Local) => {
            &&& n.string_data is Some
            &&& parameter_position(n.string_data->0, scope.locals) is Some
            &&& n.data == Some(
                NodeDataModel::Long(parameter_position(n.string_data->0, scope.locals)->0 as i32),
            )
        },
        NodeType::Primitive(PrimitiveType::Global) => {
            &&& n.string_data is Some
            &&& match global_index(scope, n.string_data->0) {
                Some(k) => n.data == Some(NodeDataModel::Long(k as i32)),
                None => n.data is None,
            }
        },
        NodeType::Primitive(PrimitiveType::Static) => {
            n.value_type == ValueType::Script ==> {
                &&& n.string_data is Some
                &&& script_index(scope, n.string_data->0) is Some
                &&& n.data == Some(
                    NodeDataModel::Short(script_index(scope, n.string_data->0)->0 as i16),
                )
            }
        },
    }
}

/// Whether every node of a tree carries the index of what it names.
pub open spec fn all_settled(n: NodeModel, scope: Scope) -> bool
    decreases n,
{
    &&& is_settled(n, scope)
    &&& n.node_type is FunctionCall && n.parameters is Some ==> forall|i: int|
        0 <= i < n.parameters->0.len() ==> all_settled(#[trigger] n.parameters->0[i], scope)
}

/// Whether the lists of a scope are short enough for every position to be
/// an index.
pub open spec fn is_indexable(scope: Scope) -> bool {
    scope.scripts.len() <= 32767 && scope.globals.len() <= 32767 && scope.locals.len() <= 32767
}

/// Giving out indices settles a sound tree.
pub proof fn lemma_indexed_settled(n: NodeModel, scope: Scope)
    requires
        is_sound(n, scope),
        is_indexable(scope),
    ensures
        all_settled(indexed(n, scope), scope),
    decreases n,
{
    let r = indexed(n, scope);
    if n.string_data is Some {
        let name = n.string_data->0;
        lemma_script_position(scope.scripts, name, scope.scripts.len() as int);
        lemma_global_position(scope.globals, name, scope.globals.len() as int);
        lemma_engine_position(
            scope.functions,
            scope.target,
            name,
            scope.functions.len() as int,
        );
        lemma_parameter_position(name, scope.locals, 0);
    }
    assert(is_settled(r, scope));
    if n.node_type is FunctionCall && n.parameters is Some {
        let p = n.parameters->0;
        assert(r.parameters->0 == indexed_all(p, scope));
        assert forall|i: int| 0 <= i < r.parameters->0.len() implies all_settled(
            #[trigger] r.parameters->0[i],
            scope,
        ) by {
            assert(is_sound(n.parameters->0[i], scope));
            lemma_indexed_settled(p[i], scope);
        }
    }
}

/// A tree that is settled in a scope is settled in every scope with the
/// same names.
pub proof fn lemma_settled_rescoped(n: NodeModel, a: Scope, b: Scope)
    requires
        all_settled(n, a),
        agree(a, b),
        script_names(a.scripts) == script_names(b.scripts),
    ensures
        all_settled(n, b),
    decreases n,
{
    assert(a.scripts.len() == script_names(a.scripts).len());
    assert(b.scripts.len() == script_names(b.scripts).len());
    assert(a.globals.len() == global_names(a.globals).len());
    assert(b.globals.len() == global_names(b.globals).len());
    if n.string_data is Some {
        let name = n.string_data->0;
        lemma_script_position_by_names(a.scripts, b.scripts, name, a.scripts.len() as int);
        lemma_global_position_by_names(a.globals, b.globals, name, a.globals.len() as int);
    }
    if n.node_type is FunctionCall && n.parameters is Some {
        let p = n.parameters->0;
        assert forall|i: int| 0 <= i < p.len() implies all_settled(#[trigger] p[i], b) by {
            assert(all_settled(n.parameters->0[i], a));
            lemma_settled_rescoped(p[i], a, b);
        }
    }
}

/// As many parameters are read as there are blocks to read them from.
pub proof fn lemma_classified_parameter_count(
    c: Seq<TokenModel>,
    i: int,
    so_far: Seq<ScriptParameterModel>,
)
    requires
        0 <= i <= c.len(),
    ensures
        match classify_parameters(c, i, so_far) {
            Ok(p) => p.len() == so_far.len() + c.len() - i,
            Err(_) => true,
        },
    decreases c.len() - i,
{
    if i < c.len() {
        match crate::compile::classify::classify_parameter(c[i]) {
            Ok(p) => {
                lemma_classified_parameter_count(c, i + 1, so_far.push(p));
            },
            Err(_) => {},
        }
    }
}

/// A script declares no more parameters than its target takes.
pub proof fn lemma_classified_parameters(token: TokenModel, target: CompileTarget)
    ensures
        match classify(token, target) {
            Ok(DefinitionModel::Script(s)) => s.parameters.len()
                <= target.script_parameter_limit(),
            _ => true,
        },
{
    match token.children {
        Some(children) => {
            if children.len() > 3 {
                match children[3].children {
                    Some(c) => {
                        if c.len() > 0 {
                            lemma_classified_parameter_count(c, 1, Seq::empty());
                        }
                    },
                    None => {},
                }
            }
            if children.len() > 2 {
                match children[2].children {
                    Some(c) => {
                        if c.len() > 0 {
                            lemma_classified_parameter_count(c, 1, Seq::empty());
                        }
                    },
                    None => {},
                }
            }
        },
        None => {},
    }
}

/// No script of a file declares more parameters than the target takes.
pub proof fn lemma_all_classified_parameters(
    tokens: Seq<TokenModel>,
    target: CompileTarget,
    i: int,
    so_far: Classification,
)
    requires
        0 <= i,
        forall|k: int|
            0 <= k < so_far.scripts.len() ==> (#[trigger] so_far.scripts[k]).parameters.len()
                <= target.script_parameter_limit(),
    ensures
        match classify_all(tokens, target, i, so_far) {
            Ok(d) => forall|k: int|
                0 <= k < d.scripts.len() ==> (#[trigger] d.scripts[k]).parameters.len()
                    <= target.script_parameter_limit(),
            Err(_) => true,
        },
    decreases tokens.len() - i,
{
    if i < tokens.len() {
        lemma_classified_parameters(tokens[i], target);
        match classify(tokens[i], target) {
            Ok(DefinitionModel::Global(g)) => {
                lemma_all_classified_parameters(
                    tokens,
                    target,
                    i + 1,
                    Classification { globals: so_far.globals.push(g), ..so_far },
                );
            },
            Ok(DefinitionModel::Script(s)) => {
                lemma_all_classified_parameters(
                    tokens,
                    target,
                    i + 1,
                    Classification { scripts: so_far.scripts.push(s), ..so_far },
                );
            },
            Err(_) => {},
        }
    }
}

/// The root of a definition that analysis found sound is settled once
/// `begin` is collapsed and indices are given out.
pub proof fn lemma_root_settled(raw: NodeModel, first: Scope, middle: Scope, last: Scope)
    requires
        is_sound(raw, first),
        agree(first, middle),
        keeps_scripts(first, middle),
        is_indexable(middle),
        agree(middle, last),
        script_names(middle.scripts) == script_names(last.scripts),
    ensures
        all_settled(indexed(collapse(raw), middle), last),
{
    lemma_collapse_sound(raw, first);
    lemma_sound_rescoped(collapse(raw), first, middle);
    lemma_indexed_settled(collapse(raw), middle);
    lemma_settled_rescoped(indexed(collapse(raw), middle), middle, last);
}

/// The body of a script that is analyzed is sound.
pub proof fn lemma_script_sound(s: ScriptModel, scope: Scope)
    ensures
        crate::compile::digest::analyze_script(s, scope) is Ok ==> is_sound(
            crate::compile::digest::analyze_script(s, scope)->Ok_0,
            Scope { locals: s.parameters, ..scope },
        ),
{
    lemma_analyze_call_sound(
        "begin"@,
        s.original_token,
        s.return_type,
        crate::compile::digest::body_tokens(s.original_token, s.script_type.body_offset() as int),
        Scope { locals: s.parameters, ..scope },
    );
}

/// The initializer of a global that is analyzed is sound.
pub proof fn lemma_global_sound(g: GlobalModel, scope: Scope)
    ensures
        crate::compile::digest::analyze_global(g, scope) is Ok ==> is_sound(
            crate::compile::digest::analyze_global(g, scope)->Ok_0,
            Scope { locals: Seq::empty(), ..scope },
        ),
{
    lemma_analyze_call_sound(
        "begin"@,
        g.original_token,
        g.value_type,
        crate::compile::digest::body_tokens(g.original_token, 3),
        Scope { locals: Seq::empty(), ..scope },
    );
}

/// In what the passes give, every reference carries the index of what it
/// names. A call of a function of the engine carries the index that the
/// target gives the function. A call of a script and a script literal
/// carry the position of the script of that name. A parameter carries its
/// position among the parameters of its script. A global of the file
/// carries its position among the globals; a global of the engine carries
/// nothing.
#[verifier::rlimit(60)]
pub proof fn lemma_references(
    tokens: Seq<TokenModel>,
    target: CompileTarget,
    functions: Seq<EngineFunction>,
    engine_globals: Seq<EngineGlobal>,
)
    ensures
        match digest(tokens, target, functions, engine_globals) {
            Ok(x) => {
                let scope = file_scope(target, functions, engine_globals, x.scripts, x.globals);
                &&& forall|k: int|
                    0 <= k < x.scripts.len() ==> all_settled(
                        (#[trigger] x.scripts[k]).node,
                        Scope { locals: x.scripts[k].parameters, ..scope },
                    )
                &&& forall|k: int|
                    0 <= k < x.globals.len() ==> all_settled((#[trigger] x.globals[k]).node, scope)
            },
            Err(_) => true,
        },
{
    match digest(tokens, target, functions, engine_globals) {
        Ok(x) => {
            let start = Classification { scripts: Seq::empty(), globals: Seq::empty() };
            lemma_all_classified_parameters(tokens, target, 0, start);
            let definitions = classify_all(tokens, target, 0, start)->Ok_0;
            let first = file_scope(
                target,
                functions,
                engine_globals,
                definitions.scripts,
                definitions.globals,
            );
            lemma_analyzed_globals(definitions.globals, first, 0, Seq::empty());
            lemma_analyzed_scripts(definitions.scripts, first, 0, Seq::empty());
            let global_nodes = analyze_globals(definitions.globals, first, 0, Seq::empty())->Ok_0;
            let script_nodes = analyze_scripts(definitions.scripts, first, 0, Seq::empty())->Ok_0;
            let globals = with_global_nodes(definitions.globals, collapse_all(global_nodes));
            let before = with_script_nodes(definitions.scripts, collapse_all(script_nodes));
            lemma_without_stubs_among(before);
            let scripts = without_stubs(before)->Ok_0;
            let middle = file_scope(target, functions, engine_globals, scripts, globals);
            let last = file_scope(target, functions, engine_globals, x.scripts, x.globals);
            assert(script_names(before) =~= script_names(definitions.scripts));
            assert(global_names(globals) =~= global_names(definitions.globals));
            assert(script_names(x.scripts) =~= script_names(scripts));
            assert(global_names(x.globals) =~= global_names(globals));
            assert forall|name: Seq<char>| #[trigger]
                script_position(
                    definitions.scripts,
                    name,
                    definitions.scripts.len() as int,
                ) is Some implies script_position(scripts, name, scripts.len() as int) is Some by {
                lemma_script_position_by_names(
                    definitions.scripts,
                    before,
                    name,
                    before.len() as int,
                );
                lemma_without_stubs_keeps_names(before, name);
            }
            assert forall|k: int| 0 <= k < x.scripts.len() implies all_settled(
                (#[trigger] x.scripts[k]).node,
                Scope { locals: x.scripts[k].parameters, ..last },
            ) by {
                assert(is_among(scripts[k], before));
                let j = choose|j: int| 0 <= j < before.len() && before[j] == scripts[k];
                let s = definitions.scripts[j];
                let raw = script_nodes[j];
                assert(crate::compile::digest::analyze_script(s, first) == Ok::<
                    NodeModel,
                    crate::error::DiagnosticModel,
                >(raw));
                let own_first = Scope { locals: s.parameters, ..first };
                let own_middle = Scope { locals: s.parameters, ..middle };
                let own_last = Scope { locals: s.parameters, ..last };
                lemma_script_sound(s, first);
                assert(before[j].node == collapse(raw));
                assert(s.parameters.len() <= target.script_parameter_limit());
                lemma_root_settled(raw, own_first, own_middle, own_last);
            }
            assert forall|k: int| 0 <= k < x.globals.len() implies all_settled(
                (#[trigger] x.globals[k]).node,
                last,
            ) by {
                let g = definitions.globals[k];
                let raw = global_nodes[k];
                assert(crate::compile::digest::analyze_global(g, first) == Ok::<
                    NodeModel,
                    crate::error::DiagnosticModel,
                >(raw));
                assert(Scope { locals: Seq::empty(), ..first } == first);
                lemma_global_sound(g, first);
                assert(globals[k].node == collapse(raw));
                lemma_root_settled(raw, first, middle, last);
            }
        },
        Err(_) => {},
    }
}

} // verus!
