//! What holds of a compiled file as a whole: the tree of every script and
//! global can be read back from the node array, in it every reference
//! carries the index of what it names, and it holds no call of `begin`
//! with a single argument.

use crate::compile::checks::all_distinct;
use crate::compile::checks::global_names;
use crate::compile::checks::script_names;
use crate::compile::collapse::is_collapsed;
use crate::compile::digest::digest;
use crate::compile::digest::file_scope;
use crate::compile::emit::compiled_global;
use crate::compile::emit::compiled_script;
use crate::compile::emit::emit_globals;
use crate::compile::emit::emit_scripts;
use crate::compile::emit::emitted;
use crate::compile::emit::Emission;
use crate::compile::node::NodeModel;
use crate::compile::scope::Scope;
use crate::compile::script::GlobalModel;
use crate::compile::script::ScriptModel;
use crate::compiler::compilation;
use crate::compiler::CompilerModel;
use crate::laws::begin::lemma_no_single_begin;
use crate::laws::chain::holds;
use crate::laws::chain::holds_but_next;
use crate::laws::chain::lemma_emitted_root;
use crate::laws::chain::lemma_read_back;
use crate::laws::chain::plain;
use crate::laws::chain::plain_all;
use crate::laws::chain::read_back;
use crate::laws::names::is_proper_name;
use crate::laws::names::lemma_names;
use crate::laws::references::all_settled;
use crate::laws::references::lemma_references;
use crate::types::CompileEncoding;
use vstd::prelude::*;

verus! {

/// Whether the array holds, at the first node of each script, the nodes
/// that the script's tree becomes there.
pub open spec fn holds_scripts(
    e: Emission,
    scripts: Seq<ScriptModel>,
    count: int,
    encoding: CompileEncoding,
) -> bool {
    forall|k: int|
        0 <= k < count ==> holds(
            e.nodes,
            (#[trigger] e.scripts[k]).first_node as int,
            emitted(scripts[k].node, e.scripts[k].first_node as int, encoding),
        ) && e.scripts[k] == compiled_script(scripts[k], e.scripts[k].first_node, encoding)
}

/// Whether the array holds, at the first node of each global, the nodes
/// that the global's tree becomes there.
pub open spec fn holds_globals(
    e: Emission,
    globals: Seq<GlobalModel>,
    count: int,
    encoding: CompileEncoding,
) -> bool {
    forall|k: int|
        0 <= k < count ==> holds(
            e.nodes,
            (#[trigger] e.globals[k]).first_node as int,
            emitted(globals[k].node, e.globals[k].first_node as int, encoding),
        ) && e.globals[k] == compiled_global(globals[k], e.globals[k].first_node, encoding)
}

/// Whether one array begins with another.
pub open spec fn extends(longer: Seq<crate::compile::types::CompiledNodeModel>, shorter: Seq<
    crate::compile::types::CompiledNodeModel,
>) -> bool {
    shorter.len() <= longer.len() && forall|j: int|
        0 <= j < shorter.len() ==> #[trigger] longer[j] == shorter[j]
}

/// Emitting the scripts from position `i` on keeps what the array holds
/// and adds the nodes of each script at the script's first node.
pub proof fn lemma_emit_scripts_holds(
    scripts: Seq<ScriptModel>,
    i: int,
    so_far: Emission,
    encoding: CompileEncoding,
)
    requires
        0 <= i <= scripts.len(),
        so_far.scripts.len() == i,
        holds_scripts(so_far, scripts, i, encoding),
        emit_scripts(scripts, i, so_far, encoding).nodes.len() <= usize::MAX,
    ensures
        ({
            let r = emit_scripts(scripts, i, so_far, encoding);
            &&& r.scripts.len() == scripts.len()
            &&& r.globals == so_far.globals
            &&& extends(r.nodes, so_far.nodes)
            &&& holds_scripts(r, scripts, scripts.len() as int, encoding)
        }),
    decreases scripts.len() - i,
{
    if i < scripts.len() {
        let base = so_far.nodes.len();
        let own = emitted(scripts[i].node, base as int, encoding);
        let next = Emission {
            scripts: so_far.scripts.push(compiled_script(scripts[i], base as usize, encoding)),
            nodes: so_far.nodes + own,
            ..so_far
        };
        lemma_emit_scripts_grows(scripts, i + 1, next, encoding);
        assert(holds_scripts(next, scripts, i + 1, encoding)) by {
            assert forall|k: int| 0 <= k < i + 1 implies holds(
                next.nodes,
                (#[trigger] next.scripts[k]).first_node as int,
                emitted(scripts[k].node, next.scripts[k].first_node as int, encoding),
            ) && next.scripts[k] == compiled_script(
                scripts[k],
                next.scripts[k].first_node,
                encoding,
            ) by {
                if k < i {
                    assert(next.scripts[k] == so_far.scripts[k]);
                    let f = so_far.scripts[k].first_node as int;
                    let block = emitted(scripts[k].node, f, encoding);
                    assert(holds(so_far.nodes, f, block));
                    assert forall|m: int| 0 <= m < block.len() implies next.nodes[f + m]
                        == #[trigger] block[m] by {
                        assert(so_far.nodes[f + m] == block[m]);
                    }
                } else {
                    assert(next.scripts[k] == compiled_script(scripts[i], base as usize, encoding));
                    assert forall|m: int| 0 <= m < own.len() implies next.nodes[base + m]
                        == #[trigger] own[m] by {}
                }
            }
        }
        lemma_emit_scripts_holds(scripts, i + 1, next, encoding);
        let r = emit_scripts(scripts, i, so_far, encoding);
        assert forall|j: int| 0 <= j < so_far.nodes.len() implies #[trigger] r.nodes[j]
            == so_far.nodes[j] by {
            assert(r.nodes[j] == next.nodes[j]);
        }
    }
}

/// Emitting scripts only adds to the array.
pub proof fn lemma_emit_scripts_grows(
    scripts: Seq<ScriptModel>,
    i: int,
    so_far: Emission,
    encoding: CompileEncoding,
)
    requires
        0 <= i,
    ensures
        emit_scripts(scripts, i, so_far, encoding).nodes.len() >= so_far.nodes.len(),
    decreases scripts.len() - i,
{
    if i < scripts.len() {
        let base = so_far.nodes.len();
        let next = Emission {
            scripts: so_far.scripts.push(compiled_script(scripts[i], base as usize, encoding)),
            nodes: so_far.nodes + emitted(scripts[i].node, base as int, encoding),
            ..so_far
        };
        lemma_emit_scripts_grows(scripts, i + 1, next, encoding);
    }
}

/// Emitting globals only adds to the array.
pub proof fn lemma_emit_globals_grows(
    globals: Seq<GlobalModel>,
    i: int,
    so_far: Emission,
    encoding: CompileEncoding,
)
    requires
        0 <= i,
    ensures
        emit_globals(globals, i, so_far, encoding).nodes.len() >= so_far.nodes.len(),
    decreases globals.len() - i,
{
    if i < globals.len() {
        let base = so_far.nodes.len();
        let next = Emission {
            globals: so_far.globals.push(compiled_global(globals[i], base as usize, encoding)),
            nodes: so_far.nodes + emitted(globals[i].node, base as int, encoding),
            ..so_far
        };
        lemma_emit_globals_grows(globals, i + 1, next, encoding);
    }
}

/// Emitting the globals from position `i` on keeps what the array holds
/// and adds the nodes of each global at the global's first node.
pub proof fn lemma_emit_globals_holds(
    globals: Seq<GlobalModel>,
    i: int,
    so_far: Emission,
    encoding: CompileEncoding,
)
    requires
        0 <= i <= globals.len(),
        so_far.globals.len() == i,
        holds_globals(so_far, globals, i, encoding),
        emit_globals(globals, i, so_far, encoding).nodes.len() <= usize::MAX,
    ensures
        ({
            let r = emit_globals(globals, i, so_far, encoding);
            &&& r.globals.len() == globals.len()
            &&& r.scripts == so_far.scripts
            &&& extends(r.nodes, so_far.nodes)
            &&& holds_globals(r, globals, globals.len() as int, encoding)
        }),
    decreases globals.len() - i,
{
    if i < globals.len() {
        let base = so_far.nodes.len();
        let own = emitted(globals[i].node, base as int, encoding);
        let next = Emission {
            globals: so_far.globals.push(compiled_global(globals[i], base as usize, encoding)),
            nodes: so_far.nodes + own,
            ..so_far
        };
        lemma_emit_globals_grows(globals, i + 1, next, encoding);
        assert(holds_globals(next, globals, i + 1, encoding)) by {
            assert forall|k: int| 0 <= k < i + 1 implies holds(
                next.nodes,
                (#[trigger] next.globals[k]).first_node as int,
                emitted(globals[k].node, next.globals[k].first_node as int, encoding),
            ) && next.globals[k] == compiled_global(
                globals[k],
                next.globals[k].first_node,
                encoding,
            ) by {
                if k < i {
                    assert(next.globals[k] == so_far.globals[k]);
                    let f = so_far.globals[k].first_node as int;
                    let block = emitted(globals[k].node, f, encoding);
                    assert(holds(so_far.nodes, f, block));
                    assert forall|m: int| 0 <= m < block.len() implies next.nodes[f + m]
                        == #[trigger] block[m] by {
                        assert(so_far.nodes[f + m] == block[m]);
                    }
                } else {
                    assert(next.globals[k] == compiled_global(globals[i], base as usize, encoding));
                    assert forall|m: int| 0 <= m < own.len() implies next.nodes[base + m]
                        == #[trigger] own[m] by {}
                }
            }
        }
        lemma_emit_globals_holds(globals, i + 1, next, encoding);
        let r = emit_globals(globals, i, so_far, encoding);
        assert forall|j: int| 0 <= j < so_far.nodes.len() implies #[trigger] r.nodes[j]
            == so_far.nodes[j] by {
            assert(r.nodes[j] == next.nodes[j]);
        }
    }
}

/// A block that an array holds is held by every array that begins with
/// it.
pub proof fn lemma_holds_extended(
    longer: Seq<crate::compile::types::CompiledNodeModel>,
    shorter: Seq<crate::compile::types::CompiledNodeModel>,
    base: int,
    block: Seq<crate::compile::types::CompiledNodeModel>,
)
    requires
        extends(longer, shorter),
        holds(shorter, base, block),
    ensures
        holds(longer, base, block),
{
    assert forall|k: int| 0 <= k < block.len() implies longer[base + k] == #[trigger] block[k] by {
        assert(shorter[base + k] == block[k]);
    }
}

/// A block that an array holds, it holds but for where the first node
/// points.
pub proof fn lemma_holds_but_next(
    nodes: Seq<crate::compile::types::CompiledNodeModel>,
    base: int,
    block: Seq<crate::compile::types::CompiledNodeModel>,
)
    requires
        holds(nodes, base, block),
        block.len() > 0,
    ensures
        holds_but_next(nodes, base, block),
{
    assert(nodes[base + 0] == block[0]);
}

/// The tree of every script and of every global can be read back from
/// the node array of a compiled file: from the first node of the script or
/// global, the data of each call leads to its name node, and the chain
/// that begins there visits exactly the arguments of the call, in order.
/// The scripts and globals stand in the order of their definition, each
/// with the name, the types and the place of its definition.
pub proof fn lemma_compiled_read_back(c: CompilerModel)
    requires
        compilation(c) is Ok,
        compilation(c)->Ok_0.nodes.len() <= usize::MAX,
    ensures
        ({
            let x = digest(c.tokens, c.target, c.functions, c.globals)->Ok_0;
            let out = compilation(c)->Ok_0;
            &&& out.scripts.len() == x.scripts.len()
            &&& out.globals.len() == x.globals.len()
            &&& forall|k: int|
                0 <= k < out.scripts.len() ==> read_back(
                    out.nodes,
                    (#[trigger] out.scripts[k]).first_node as int,
                ) == plain(x.scripts[k].node) && out.scripts[k] == compiled_script(
                    x.scripts[k],
                    out.scripts[k].first_node,
                    c.encoding,
                )
            &&& forall|k: int|
                0 <= k < out.globals.len() ==> read_back(
                    out.nodes,
                    (#[trigger] out.globals[k]).first_node as int,
                ) == plain(x.globals[k].node) && out.globals[k] == compiled_global(
                    x.globals[k],
                    out.globals[k].first_node,
                    c.encoding,
                )
        }),
{
    let x = digest(c.tokens, c.target, c.functions, c.globals)->Ok_0;
    let out = compilation(c)->Ok_0;
    let start = Emission { scripts: Seq::empty(), globals: Seq::empty(), nodes: Seq::empty() };
    let middle = emit_scripts(x.scripts, 0, start, c.encoding);
    let last = emit_globals(x.globals, 0, middle, c.encoding);
    assert(out.nodes == last.nodes);
    lemma_emit_globals_grows(x.globals, 0, middle, c.encoding);
    lemma_emit_scripts_holds(x.scripts, 0, start, c.encoding);
    lemma_emit_globals_holds(x.globals, 0, middle, c.encoding);
    assert forall|k: int| 0 <= k < out.scripts.len() implies read_back(
        out.nodes,
        (#[trigger] out.scripts[k]).first_node as int,
    ) == plain(x.scripts[k].node) && out.scripts[k] == compiled_script(
        x.scripts[k],
        out.scripts[k].first_node,
        c.encoding,
    ) by {
        let f = middle.scripts[k].first_node as int;
        let block = emitted(x.scripts[k].node, f, c.encoding);
        assert(holds(middle.nodes, f, block));
        lemma_holds_extended(last.nodes, middle.nodes, f, block);
        lemma_emitted_root(x.scripts[k].node, f, c.encoding);
        lemma_holds_but_next(last.nodes, f, block);
        lemma_read_back(last.nodes, x.scripts[k].node, f, c.encoding);
    }
    assert forall|k: int| 0 <= k < out.globals.len() implies read_back(
        out.nodes,
        (#[trigger] out.globals[k]).first_node as int,
    ) == plain(x.globals[k].node) && out.globals[k] == compiled_global(
        x.globals[k],
        out.globals[k].first_node,
        c.encoding,
    ) by {
        let f = last.globals[k].first_node as int;
        let block = emitted(x.globals[k].node, f, c.encoding);
        assert(holds(last.nodes, f, block));
        lemma_emitted_root(x.globals[k].node, f, c.encoding);
        lemma_holds_but_next(last.nodes, f, block);
        lemma_read_back(last.nodes, x.globals[k].node, f, c.encoding);
    }
}

/// A settled tree is settled as the array holds it.
pub proof fn lemma_plain_settled(n: NodeModel, scope: Scope)
    requires
        all_settled(n, scope),
    ensures
        all_settled(plain(n), scope),
    decreases n,
{
    let r = plain(n);
    if n.node_type is FunctionCall {
        match n.parameters {
            Some(p) => {
                assert(r.parameters->0 == plain_all(p));
                assert forall|i: int| 0 <= i < r.parameters->0.len() implies all_settled(
                    #[trigger] r.parameters->0[i],
                    scope,
                ) by {
                    assert(all_settled(n.parameters->0[i], scope));
                    lemma_plain_settled(p[i], scope);
                }
            },
            None => {},
        }
    }
}

/// A tree without a call of `begin` with a single argument has none as
/// the array holds it.
pub proof fn lemma_plain_collapsed(n: NodeModel)
    requires
        is_collapsed(n),
    ensures
        is_collapsed(plain(n)),
    decreases n,
{
    let r = plain(n);
    if n.node_type is FunctionCall {
        match n.parameters {
            Some(p) => {
                assert(r.parameters->0 == plain_all(p));
                assert forall|i: int| 0 <= i < r.parameters->0.len() implies is_collapsed(
                    #[trigger] r.parameters->0[i],
                ) by {
                    assert(is_collapsed(n.parameters->0[i]));
                    lemma_plain_collapsed(p[i]);
                }
            },
            None => {},
        }
    }
}

/// In the trees that are read back from the node array of a compiled
/// file, every reference carries the index of what it names, and no call
/// of the engine's `begin` has exactly one argument. The names of the
/// scripts and of the globals are in lower case, no longer than 31 bytes,
/// and pairwise distinct, so that the position of a script or global is
/// its index.
pub proof fn lemma_compiled(c: CompilerModel)
    requires
        compilation(c) is Ok,
        compilation(c)->Ok_0.nodes.len() <= usize::MAX,
    ensures
        ({
            let x = digest(c.tokens, c.target, c.functions, c.globals)->Ok_0;
            let out = compilation(c)->Ok_0;
            let scope = file_scope(c.target, c.functions, c.globals, x.scripts, x.globals);
            &&& forall|k: int|
                0 <= k < out.scripts.len() ==> {
                    let tree = read_back(out.nodes, (#[trigger] out.scripts[k]).first_node as int);
                    &&& all_settled(tree, Scope { locals: x.scripts[k].parameters, ..scope })
                    &&& is_collapsed(tree)
                    &&& is_proper_name(out.scripts[k].name.text)
                    &&& out.scripts[k].name.text == x.scripts[k].name
                }
            &&& forall|k: int|
                0 <= k < out.globals.len() ==> {
                    let tree = read_back(out.nodes, (#[trigger] out.globals[k]).first_node as int);
                    &&& all_settled(tree, scope)
                    &&& is_collapsed(tree)
                    &&& is_proper_name(out.globals[k].name.text)
                    &&& out.globals[k].name.text == x.globals[k].name
                }
            &&& all_distinct(script_names(x.scripts))
            &&& all_distinct(global_names(x.globals))
        }),
{
    let x = digest(c.tokens, c.target, c.functions, c.globals)->Ok_0;
    let out = compilation(c)->Ok_0;
    let scope = file_scope(c.target, c.functions, c.globals, x.scripts, x.globals);
    lemma_compiled_read_back(c);
    lemma_references(c.tokens, c.target, c.functions, c.globals);
    lemma_no_single_begin(c.tokens, c.target, c.functions, c.globals);
    lemma_names(c.tokens, c.target, c.functions, c.globals);
    assert forall|k: int| 0 <= k < out.scripts.len() implies {
        let tree = read_back(out.nodes, (#[trigger] out.scripts[k]).first_node as int);
        &&& all_settled(tree, Scope { locals: x.scripts[k].parameters, ..scope })
        &&& is_collapsed(tree)
        &&& is_proper_name(out.scripts[k].name.text)
        &&& out.scripts[k].name.text == x.scripts[k].name
    } by {
        lemma_plain_settled(
            x.scripts[k].node,
            Scope { locals: x.scripts[k].parameters, ..scope },
        );
        lemma_plain_collapsed(x.scripts[k].node);
    }
    assert forall|k: int| 0 <= k < out.globals.len() implies {
        let tree = read_back(out.nodes, (#[trigger] out.globals[k]).first_node as int);
        &&& all_settled(tree, scope)
        &&& is_collapsed(tree)
        &&& is_proper_name(out.globals[k].name.text)
        &&& out.globals[k].name.text == x.globals[k].name
    } by {
        lemma_plain_settled(x.globals[k].node, scope);
        lemma_plain_collapsed(x.globals[k].node);
    }
}

/// Two compilers with the same value read the same from the same bytes
/// and compile to the same.
pub proof fn lemma_deterministic(a: CompilerModel, b: CompilerModel, filename: Seq<char>, script: Seq<u8>)
    requires
        a == b,
    ensures
        crate::compiler::reading(a, filename, script) == crate::compiler::reading(
            b,
            filename,
            script,
        ),
        compilation(a) == compilation(b),
{
}

} // verus!
