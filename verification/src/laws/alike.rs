//! Classification that differ at most in the case of the tokens that they
//! keep. The passes after classification look at such definitions alike.

use crate::compile::checks::global_names;
use crate::compile::checks::script_names;
use crate::compile::classify::classify;
use crate::compile::classify::DefinitionModel;
use crate::compile::classify::Classification;
use crate::compile::scope::Scope;
use crate::compile::script::parameter_position;
use crate::compile::script::parameter_position_from;
use crate::compile::script::GlobalModel;
use crate::compile::script::ScriptModel;
use crate::compile::script::ScriptParameterModel;
use crate::laws::case::like_definition;
use crate::laws::case::like_parameter;
use crate::laws::case::like_parameters;
use crate::laws::references::lemma_global_position_by_names;
use crate::laws::references::lemma_script_position_by_names;
use crate::laws::rescoped::same_meaning;
use vstd::prelude::*;

verus! {

/// Whether two scripts differ at most in the case of the tokens that they
/// keep.
pub open spec fn like_script(x: ScriptModel, y: ScriptModel) -> bool {
    like_definition(DefinitionModel::Script(x), DefinitionModel::Script(y))
}

/// Whether two globals differ at most in the case of the token that they
/// keep.
pub open spec fn like_global(x: GlobalModel, y: GlobalModel) -> bool {
    like_definition(DefinitionModel::Global(x), DefinitionModel::Global(y))
}

/// Whether two lists of scripts differ at most in the case of the tokens
/// that they keep.
pub open spec fn like_scripts(a: Seq<ScriptModel>, b: Seq<ScriptModel>) -> bool {
    a.len() == b.len() && forall|k: int| 0 <= k < a.len() ==> like_script(#[trigger] a[k], b[k])
}

/// Whether two lists of globals differ at most in the case of the tokens
/// that they keep.
pub open spec fn like_globals(a: Seq<GlobalModel>, b: Seq<GlobalModel>) -> bool {
    a.len() == b.len() && forall|k: int| 0 <= k < a.len() ==> like_global(#[trigger] a[k], b[k])
}

/// Lists of parameters with the same names give a name the same position.
pub proof fn lemma_parameter_position_like(
    name: Seq<char>,
    a: Seq<ScriptParameterModel>,
    b: Seq<ScriptParameterModel>,
    from: int,
)
    requires
        like_parameters(a, b),
        0 <= from,
    ensures
        parameter_position_from(name, a, from) == parameter_position_from(name, b, from),
    decreases a.len() - from,
{
    if from < a.len() {
        assert(like_parameter(a[from], b[from]));
        lemma_parameter_position_like(name, a, b, from + 1);
    }
}

/// Lists that are alike have the same names.
pub proof fn lemma_like_names(
    a: Seq<ScriptModel>,
    b: Seq<ScriptModel>,
    c: Seq<GlobalModel>,
    d: Seq<GlobalModel>,
)
    requires
        like_scripts(a, b),
        like_globals(c, d),
    ensures
        script_names(a) == script_names(b),
        global_names(c) == global_names(d),
{
    assert forall|k: int| 0 <= k < a.len() implies script_names(a)[k] == script_names(b)[k] by {
        assert(like_script(a[k], b[k]));
    }
    assert(script_names(a) =~= script_names(b));
    assert forall|k: int| 0 <= k < c.len() implies global_names(c)[k] == global_names(d)[k] by {
        assert(like_global(c[k], d[k]));
    }
    assert(global_names(c) =~= global_names(d));
}

/// Scopes over the same catalog whose scripts, globals and parameters are
/// alike give every name the same meaning.
pub proof fn lemma_same_meaning(a: Scope, b: Scope)
    requires
        a.target == b.target,
        a.functions == b.functions,
        a.engine_globals == b.engine_globals,
        like_scripts(a.scripts, b.scripts),
        like_globals(a.globals, b.globals),
        like_parameters(a.locals, b.locals),
    ensures
        same_meaning(a, b),
{
    lemma_like_names(a.scripts, b.scripts, a.globals, b.globals);
    assert forall|name: Seq<char>| #[trigger] a.function(name) == b.function(name) by {
        lemma_script_position_by_names(a.scripts, b.scripts, name, a.scripts.len() as int);
    }
    assert forall|name: Seq<char>| #[trigger] a.global(name) == b.global(name) by {
        lemma_global_position_by_names(a.globals, b.globals, name, a.globals.len() as int);
    }
    assert forall|name: Seq<char>| #[trigger]
        parameter_position(name, a.locals) == parameter_position(name, b.locals) by {
        lemma_parameter_position_like(name, a.locals, b.locals, 0);
    }
    assert forall|f: crate::compile::scope::CallableFunction| a.has(f) implies #[trigger]
        a.return_type(f) == b.return_type(f) by {
        lemma_like_callable(a, b, f);
    }
    assert forall|f: crate::compile::scope::CallableFunction| a.has(f) implies #[trigger]
        a.minimum_count(f) == b.minimum_count(f) by {
        lemma_like_callable(a, b, f);
    }
    assert forall|f: crate::compile::scope::CallableFunction| a.has(f) implies #[trigger]
        a.total_count(f) == b.total_count(f) by {
        lemma_like_callable(a, b, f);
    }
    assert forall|f: crate::compile::scope::CallableFunction, i: int| a.has(f) implies #[trigger]
        a.expected_type(f, i) == b.expected_type(f, i) by {
        lemma_like_callable(a, b, f);
        match f {
            crate::compile::scope::CallableFunction::Script(s) => {
                if s < a.scripts.len() {
                    assert(like_script(a.scripts[s as int], b.scripts[s as int]));
                    if 0 <= i < a.scripts[s as int].parameters.len() {
                        assert(like_parameter(
                            a.scripts[s as int].parameters[i],
                            b.scripts[s as int].parameters[i],
                        ));
                    }
                }
            },
            _ => {},
        }
    }
    assert forall|g: crate::compile::scope::CallableGlobal| a.has_global(g) implies #[trigger]
        a.global_type(g) == b.global_type(g) by {
        match g {
            crate::compile::scope::CallableGlobal::User(i) => {
                if i < a.globals.len() {
                    assert(like_global(a.globals[i as int], b.globals[i as int]));
                }
            },
            _ => {},
        }
    }
    assert forall|n: int| 0 <= n < a.locals.len() implies (#[trigger] a.locals[n]).value_type
        == b.locals[n].value_type by {
        assert(like_parameter(a.locals[n], b.locals[n]));
    }
}

/// What a script takes and returns is the same in scopes whose scripts
/// are alike.
pub proof fn lemma_like_callable(a: Scope, b: Scope, f: crate::compile::scope::CallableFunction)
    requires
        a.functions == b.functions,
        like_scripts(a.scripts, b.scripts),
    ensures
        a.has(f) ==> a.return_type(f) == b.return_type(f) && a.minimum_count(f)
            == b.minimum_count(f) && a.total_count(f) == b.total_count(f),
{
    match f {
        crate::compile::scope::CallableFunction::Script(s) => {
            if s < a.scripts.len() {
                assert(like_script(a.scripts[s as int], b.scripts[s as int]));
            }
        },
        _ => {},
    }
}

} // verus!
