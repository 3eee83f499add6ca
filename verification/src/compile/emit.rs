//! The emitter: from the trees of the scripts and globals to one flat array
//! of nodes.
//!
//! A value becomes one node. A call becomes the call node, then a node of
//! type `FunctionName` that holds the name of the function, then the nodes
//! of the arguments in order. The data of the call node is the position of
//! the name node. The name node points to the first argument, and each
//! argument to the next.

use crate::compile::node::arguments;
use crate::compile::node::nodes_view;
use crate::compile::node::Node;
use crate::compile::node::NodeModel;
use crate::compile::script::globals_view;
use crate::compile::script::parameters_view;
use crate::compile::script::scripts_view;
use crate::compile::script::Global;
use crate::compile::script::GlobalModel;
use crate::compile::script::Script;
use crate::compile::script::ScriptModel;
use crate::compile::script::ScriptParameter;
use crate::compile::script::ScriptParameterModel;
use crate::compile::types::compiled_globals_view;
use crate::compile::types::compiled_nodes_view;
use crate::compile::types::compiled_parameters_view;
use crate::compile::types::compiled_scripts_view;
use crate::compile::types::CompiledGlobal;
use crate::compile::types::CompiledGlobalModel;
use crate::compile::types::CompiledNode;
use crate::compile::types::CompiledNodeModel;
use crate::compile::types::CompiledScript;
use crate::compile::types::CompiledScriptModel;
use crate::compile::types::CompiledScriptParameter;
use crate::compile::types::CompiledScriptParameterModel;
use crate::compile::types::EncodedText;
use crate::compile::types::EncodedTextModel;
use crate::types::duplicate_data;
use crate::types::CompileEncoding;
use crate::types::NodeData;
use crate::types::NodeDataModel;
use crate::types::NodeType;
use crate::types::PrimitiveType;
use crate::value_type::ValueType;
use vstd::prelude::*;

verus! {

/// A text with its zero-terminated bytes in an encoding.
pub open spec fn encoded_text(encoding: CompileEncoding, text: Seq<char>) -> EncodedTextModel {
    EncodedTextModel { text, cstr: encoding.encoded(text).push(0) }
}

/// An optional text with its bytes.
pub open spec fn encoded_option(encoding: CompileEncoding, text: Option<Seq<char>>) -> Option<
    EncodedTextModel,
> {
    match text {
        Some(t) => Some(encoded_text(encoding, t)),
        None => None,
    }
}

/// A text with its zero-terminated bytes in an encoding.
pub fn encode_text(encoding: CompileEncoding, text: &str) -> (r: EncodedText)
    ensures
        r@ == encoded_text(encoding, text@),
{
    EncodedText { text: text.to_owned(), cstr: encoding.encode_to_cstring(text) }
}

fn encode_option(encoding: CompileEncoding, text: &Option<String>) -> (r: Option<EncodedText>)
    ensures
        crate::compile::types::encoded_view(r) == encoded_option(
            encoding,
            crate::types::text_view(*text),
        ),
{
    match text {
        Some(t) => Some(encode_text(encoding, t.as_str())),
        None => None,
    }
}

/// The node that a value becomes.
pub open spec fn value_node(n: NodeModel, encoding: CompileEncoding) -> CompiledNodeModel {
    CompiledNodeModel {
        node_type: n.node_type,
        value_type: n.value_type,
        data: n.data,
        string_data: encoded_option(encoding, n.string_data),
        next_node: None,
        index: n.index,
        file: n.file,
        line: n.line,
        column: n.column,
    }
}

/// The node of a call, whose name node stands at `name_position`.
pub open spec fn call_node(n: NodeModel, name_position: usize) -> CompiledNodeModel {
    CompiledNodeModel {
        node_type: n.node_type,
        value_type: n.value_type,
        data: Some(NodeDataModel::NodeOffset(name_position)),
        string_data: None,
        next_node: None,
        index: n.index,
        file: n.file,
        line: n.line,
        column: n.column,
    }
}

/// The name node of a call, which points to the first argument if there
/// is one.
pub open spec fn name_node(
    n: NodeModel,
    first_argument: Option<usize>,
    encoding: CompileEncoding,
) -> CompiledNodeModel {
    CompiledNodeModel {
        node_type: NodeType::Primitive(PrimitiveType::Static),
        value_type: ValueType::FunctionName,
        data: Some(NodeDataModel::Long(0)),
        string_data: encoded_option(encoding, n.string_data),
        next_node: first_argument,
        index: n.index,
        file: n.file,
        line: n.line,
        column: n.column,
    }
}

/// The nodes of a block with the first of them pointing to `next`.
pub open spec fn with_next(nodes: Seq<CompiledNodeModel>, next: Option<usize>) -> Seq<
    CompiledNodeModel,
> {
    if nodes.len() > 0 {
        nodes.update(0, CompiledNodeModel { next_node: next, ..nodes[0] })
    } else {
        nodes
    }
}

/// The nodes that a tree becomes when the first of them stands at
/// position `base` of the array.
pub open spec fn emitted(n: NodeModel, base: int, encoding: CompileEncoding) -> Seq<
    CompiledNodeModel,
>
    decreases n, 0nat,
{
    match n.node_type {
        NodeType::Primitive(_) => seq![value_node(n, encoding)],
        NodeType::FunctionCall(_) => {
            let args = arguments(n);
            seq![
                call_node(n, (base + 1) as usize),
                name_node(
                    n,
                    if args.len() > 0 {
                        Some((base + 2) as usize)
                    } else {
                        None
                    },
                    encoding,
                ),
            ] + match n.parameters {
                Some(p) => emitted_arguments(p, 0, base + 2, encoding),
                None => Seq::empty(),
            }
        },
    }
}

/// The nodes that the arguments from position `i` on become when the
/// first of them stands at position `base` of the array. The first node of
/// each argument but the last points to the first node of the next.
pub open spec fn emitted_arguments(
    s: Seq<NodeModel>,
    i: int,
    base: int,
    encoding: CompileEncoding,
) -> Seq<CompiledNodeModel>
    decreases s, s.len() - i,
{
    if i < 0 || i >= s.len() {
        Seq::empty()
    } else {
        let own = emitted(s[i], base, encoding);
        let linked = if i + 1 < s.len() {
            with_next(own, Some((base + own.len()) as usize))
        } else {
            own
        };
        linked + emitted_arguments(s, i + 1, base + own.len(), encoding)
    }
}

/// A tree becomes at least one node.
pub proof fn lemma_emitted_nonempty(n: NodeModel, base: int, encoding: CompileEncoding)
    ensures
        emitted(n, base, encoding).len() >= 1,
{
}

/// Emits the nodes of a tree at the end of the array and returns the
/// position of the first of them.
#[verifier::loop_isolation(false)]
pub fn make_compiled_node_from_node(
    node: &Node,
    node_array: &mut Vec<CompiledNode>,
    encoding: CompileEncoding,
) -> (r: usize)
    ensures
        r == old(node_array)@.len(),
        compiled_nodes_view(final(node_array)@) == compiled_nodes_view(old(node_array)@) + emitted(
            node@,
            old(node_array)@.len() as int,
            encoding,
        ),
    decreases node, 0nat,
{
    let ghost before = compiled_nodes_view(node_array@);
    let position: usize = node_array.len();
    match node.node_type {
        NodeType::Primitive(_) => {
            let value = CompiledNode {
                node_type: node.node_type,
                value_type: node.value_type,
                data: duplicate_data(&node.data),
                string_data: encode_option(encoding, &node.string_data),
                next_node: None,
                index: node.index,
                file: node.file,
                line: node.line,
                column: node.column,
            };
            node_array.push(value);
            assert(compiled_nodes_view(node_array@) =~= before + seq![value_node(node@, encoding)]);
            position
        },
        NodeType::FunctionCall(_) => {
            let call = CompiledNode {
                node_type: node.node_type,
                value_type: node.value_type,
                data: None,
                string_data: None,
                next_node: None,
                index: node.index,
                file: node.file,
                line: node.line,
                column: node.column,
            };
            node_array.push(call);
            let name_position: usize = node_array.len();
            node_array[position].data = Some(NodeData::NodeOffset(name_position));
            let name = CompiledNode {
                node_type: NodeType::Primitive(PrimitiveType::Static),
                value_type: ValueType::FunctionName,
                data: Some(NodeData::Long(0)),
                string_data: encode_option(encoding, &node.string_data),
                next_node: None,
                index: node.index,
                file: node.file,
                line: node.line,
                column: node.column,
            };
            node_array.push(name);
            let first: usize = node_array.len();
            let ghost args = arguments(node@);
            match &node.parameters {
                None => {
                    assert(compiled_nodes_view(node_array@) =~= before + emitted(
                        node@,
                        position as int,
                        encoding,
                    ));
                },
                Some(p) => {
                    let ghost all = nodes_view(p@);
                    if p.len() > 0 {
                        node_array[name_position].next_node = Some(first);
                    }
                    let ghost head = seq![
                        call_node(node@, name_position),
                        name_node(
                            node@,
                            if args.len() > 0 {
                                Some(first)
                            } else {
                                None
                            },
                            encoding,
                        ),
                    ];
                    assert(compiled_nodes_view(node_array@) =~= before + head);
                    let mut i: usize = 0;
                    while i < p.len()
                        invariant
                            i <= p@.len(),
                            all == nodes_view(p@),
                            compiled_nodes_view(node_array@) + emitted_arguments(
                                all,
                                i as int,
                                node_array@.len() as int,
                                encoding,
                            ) == before + head + emitted_arguments(
                                all,
                                0,
                                first as int,
                                encoding,
                            ),
                        decreases p@.len() - i,
                    {
                        assert(all[i as int] == p@[i as int]@);
                        let ghost so_far = compiled_nodes_view(node_array@);
                        let ghost base = node_array@.len() as int;
                        let ghost own = emitted(all[i as int], base, encoding);
                        let root = make_compiled_node_from_node(&p[i], node_array, encoding);
                        assert(compiled_nodes_view(node_array@) == so_far + own);
                        if i + 1 < p.len() {
                            let next: usize = node_array.len();
                            let ghost middle = node_array@;
                            proof {
                                lemma_emitted_nonempty(all[i as int], base, encoding);
                            }
                            assert(compiled_nodes_view(middle)[root as int] == own[0]);
                            node_array[root].next_node = Some(next);
                            assert(node_array@.len() == middle.len());
                            assert(root == so_far.len());
                            assert(forall|k: int|
                                0 <= k < middle.len() && k != root ==> node_array@[k]
                                    == middle[k]);
                            assert(node_array@[root as int]@ == CompiledNodeModel {
                                next_node: Some(next),
                                ..own[0]
                            });
                            let ghost patched = so_far + with_next(own, Some(next));
                            assert(patched.len() == node_array@.len());
                            assert forall|k: int| 0 <= k < patched.len() implies compiled_nodes_view(
                                node_array@,
                            )[k] == patched[k] by {
                                if k != root {
                                    assert(node_array@[k] == middle[k]);
                                    assert(compiled_nodes_view(middle)[k] == (so_far + own)[k]);
                                }
                            }
                            assert(compiled_nodes_view(node_array@) =~= so_far + with_next(
                                own,
                                Some(next),
                            ));
                        }
                        let ghost linked = if i + 1 < all.len() {
                            with_next(own, Some((base + own.len()) as usize))
                        } else {
                            own
                        };
                        assert(compiled_nodes_view(node_array@) == so_far + linked);
                        assert((so_far + linked) + emitted_arguments(
                            all,
                            i + 1,
                            base + own.len(),
                            encoding,
                        ) =~= so_far + (linked + emitted_arguments(
                            all,
                            i + 1,
                            base + own.len(),
                            encoding,
                        )));
                        i += 1;
                    }
                    assert(compiled_nodes_view(node_array@) =~= compiled_nodes_view(node_array@)
                        + Seq::<CompiledNodeModel>::empty());
                    assert(before + head + emitted_arguments(all, 0, first as int, encoding)
                        =~= before + (head + emitted_arguments(all, 0, first as int, encoding)));
                },
            }
            position
        },
    }
}

/// The compiled form of a parameter.
pub open spec fn compiled_parameter(
    p: ScriptParameterModel,
    encoding: CompileEncoding,
) -> CompiledScriptParameterModel {
    CompiledScriptParameterModel {
        name: encoded_text(encoding, p.name),
        value_type: p.value_type,
        file: p.original_token.file,
        line: p.original_token.line,
        column: p.original_token.column,
    }
}

/// The compiled form of a script whose first node stands at `first_node`.
pub open spec fn compiled_script(
    s: ScriptModel,
    first_node: usize,
    encoding: CompileEncoding,
) -> CompiledScriptModel {
    CompiledScriptModel {
        name: encoded_text(encoding, s.name),
        value_type: s.return_type,
        script_type: s.script_type,
        first_node,
        parameters: Seq::new(
            s.parameters.len(),
            |i: int| compiled_parameter(s.parameters[i], encoding),
        ),
        file: s.original_token.file,
        line: s.original_token.line,
        column: s.original_token.column,
    }
}

/// The compiled form of a global whose first node stands at `first_node`.
pub open spec fn compiled_global(
    g: GlobalModel,
    first_node: usize,
    encoding: CompileEncoding,
) -> CompiledGlobalModel {
    CompiledGlobalModel {
        name: encoded_text(encoding, g.name),
        value_type: g.value_type,
        first_node,
        file: g.original_token.file,
        line: g.original_token.line,
        column: g.original_token.column,
    }
}

/// What emission gives.
pub struct Emission {
    pub scripts: Seq<CompiledScriptModel>,
    pub globals: Seq<CompiledGlobalModel>,
    pub nodes: Seq<CompiledNodeModel>,
}

/// The scripts from position `i` on, emitted after what is there.
pub open spec fn emit_scripts(
    scripts: Seq<ScriptModel>,
    i: int,
    so_far: Emission,
    encoding: CompileEncoding,
) -> Emission
    decreases scripts.len() - i,
{
    if i < 0 || i >= scripts.len() {
        so_far
    } else {
        emit_scripts(
            scripts,
            i + 1,
            Emission {
                scripts: so_far.scripts.push(
                    compiled_script(scripts[i], so_far.nodes.len() as usize, encoding),
                ),
                nodes: so_far.nodes + emitted(scripts[i].node, so_far.nodes.len() as int, encoding),
                ..so_far
            },
            encoding,
        )
    }
}

/// The globals from position `i` on, emitted after what is there.
pub open spec fn emit_globals(
    globals: Seq<GlobalModel>,
    i: int,
    so_far: Emission,
    encoding: CompileEncoding,
) -> Emission
    decreases globals.len() - i,
{
    if i < 0 || i >= globals.len() {
        so_far
    } else {
        emit_globals(
            globals,
            i + 1,
            Emission {
                globals: so_far.globals.push(
                    compiled_global(globals[i], so_far.nodes.len() as usize, encoding),
                ),
                nodes: so_far.nodes + emitted(globals[i].node, so_far.nodes.len() as int, encoding),
                ..so_far
            },
            encoding,
        )
    }
}

/// The scripts, then the globals, emitted into one array.
pub open spec fn emission(
    scripts: Seq<ScriptModel>,
    globals: Seq<GlobalModel>,
    encoding: CompileEncoding,
) -> Emission {
    emit_globals(
        globals,
        0,
        emit_scripts(
            scripts,
            0,
            Emission { scripts: Seq::empty(), globals: Seq::empty(), nodes: Seq::empty() },
            encoding,
        ),
        encoding,
    )
}

fn compile_parameters(parameters: &Vec<ScriptParameter>, encoding: CompileEncoding) -> (r: Vec<
    CompiledScriptParameter,
>)
    ensures
        compiled_parameters_view(r@) == Seq::new(
            parameters@.len(),
            |i: int| compiled_parameter(parameters_view(parameters@)[i], encoding),
        ),
{
    let mut out: Vec<CompiledScriptParameter> = Vec::new();
    let mut i: usize = 0;
    while i < parameters.len()
        invariant
            i <= parameters@.len(),
            out@.len() == i,
            forall|k: int| 0 <= k < i ==> out@[k]@ == compiled_parameter(parameters@[k]@, encoding),
        decreases parameters@.len() - i,
    {
        let p = &parameters[i];
        out.push(
            CompiledScriptParameter {
                name: encode_text(encoding, p.name.as_str()),
                value_type: p.value_type,
                file: p.original_token.file,
                line: p.original_token.line,
                column: p.original_token.column,
            },
        );
        i += 1;
    }
    assert(compiled_parameters_view(out@) =~= Seq::new(
        parameters@.len(),
        |i: int| compiled_parameter(parameters_view(parameters@)[i], encoding),
    ));
    out
}

/// What emission gives.
pub struct Emitted {
    pub scripts: Vec<CompiledScript>,
    pub globals: Vec<CompiledGlobal>,
    pub nodes: Vec<CompiledNode>,
}

impl View for Emitted {
    type V = Emission;

    open spec fn view(&self) -> Emission {
        Emission {
            scripts: compiled_scripts_view(self.scripts@),
            globals: compiled_globals_view(self.globals@),
            nodes: compiled_nodes_view(self.nodes@),
        }
    }
}

/// Emits the scripts, then the globals, into one array.
pub fn emit(scripts: &Vec<Script>, globals: &Vec<Global>, encoding: CompileEncoding) -> (r: Emitted)
    ensures
        r@ == emission(scripts_view(scripts@), globals_view(globals@), encoding),
{
    let mut compiled_scripts: Vec<CompiledScript> = Vec::new();
    let mut compiled_globals: Vec<CompiledGlobal> = Vec::new();
    let mut nodes: Vec<CompiledNode> = Vec::new();
    let ghost all_scripts = scripts_view(scripts@);
    let ghost all_globals = globals_view(globals@);
    let ghost start = Emission {
        scripts: Seq::empty(),
        globals: Seq::empty(),
        nodes: Seq::empty(),
    };
    assert(compiled_scripts_view(compiled_scripts@) =~= Seq::empty());
    assert(compiled_globals_view(compiled_globals@) =~= Seq::empty());
    assert(compiled_nodes_view(nodes@) =~= Seq::empty());
    let mut i: usize = 0;
    while i < scripts.len()
        invariant
            i <= scripts@.len(),
            all_scripts == scripts_view(scripts@),
            compiled_globals_view(compiled_globals@) == Seq::<CompiledGlobalModel>::empty(),
            emit_scripts(all_scripts, 0, start, encoding) == emit_scripts(
                all_scripts,
                i as int,
                Emission {
                    scripts: compiled_scripts_view(compiled_scripts@),
                    globals: Seq::empty(),
                    nodes: compiled_nodes_view(nodes@),
                },
                encoding,
            ),
        decreases scripts@.len() - i,
    {
        let s = &scripts[i];
        assert(all_scripts[i as int] == s@);
        let ghost before = compiled_scripts_view(compiled_scripts@);
        let parameters = compile_parameters(&s.parameters, encoding);
        let first_node = make_compiled_node_from_node(&s.node, &mut nodes, encoding);
        let compiled = CompiledScript {
            name: encode_text(encoding, s.name.as_str()),
            value_type: s.return_type,
            script_type: s.script_type,
            first_node,
            parameters,
            file: s.original_token.file,
            line: s.original_token.line,
            column: s.original_token.column,
        };
        assert(compiled@ == compiled_script(s@, first_node, encoding));
        compiled_scripts.push(compiled);
        assert(compiled_scripts_view(compiled_scripts@) =~= before.push(compiled@));
        i += 1;
    }
    let ghost middle = Emission {
        scripts: compiled_scripts_view(compiled_scripts@),
        globals: Seq::empty(),
        nodes: compiled_nodes_view(nodes@),
    };
    let mut j: usize = 0;
    while j < globals.len()
        invariant
            j <= globals@.len(),
            all_globals == globals_view(globals@),
            emit_globals(all_globals, 0, middle, encoding) == emit_globals(
                all_globals,
                j as int,
                Emission {
                    scripts: compiled_scripts_view(compiled_scripts@),
                    globals: compiled_globals_view(compiled_globals@),
                    nodes: compiled_nodes_view(nodes@),
                },
                encoding,
            ),
        decreases globals@.len() - j,
    {
        let g = &globals[j];
        assert(all_globals[j as int] == g@);
        let ghost before = compiled_globals_view(compiled_globals@);
        let first_node = make_compiled_node_from_node(&g.node, &mut nodes, encoding);
        let compiled = CompiledGlobal {
            name: encode_text(encoding, g.name.as_str()),
            value_type: g.value_type,
            first_node,
            file: g.original_token.file,
            line: g.original_token.line,
            column: g.original_token.column,
        };
        compiled_globals.push(compiled);
        assert(compiled_globals_view(compiled_globals@) =~= before.push(compiled@));
        j += 1;
    }
    Emitted { scripts: compiled_scripts, globals: compiled_globals, nodes }
}

} // verus!
