//! What a compilation gives: scripts, globals and the flat array of nodes.

use crate::error::compile_errors_view;
use crate::error::CompileError;
use crate::error::CompileErrorModel;
use crate::types::data_view;
use crate::types::duplicate_data;
use crate::types::NodeData;
use crate::types::NodeDataModel;
use crate::types::NodeType;
use crate::types::ScriptType;
use crate::value_type::ValueType;
use vstd::prelude::*;
use vstd::string::*;

verus! {

/// A text together with its zero-terminated bytes in the compiler's
/// encoding.
#[derive(Debug)]
pub struct EncodedText {
    pub(crate) text: String,
    pub(crate) cstr: Vec<u8>,
}

/// The value of an `EncodedText`.
pub struct EncodedTextModel {
    pub text: Seq<char>,
    pub cstr: Seq<u8>,
}

impl View for EncodedText {
    type V = EncodedTextModel;

    open(crate) spec fn view(&self) -> EncodedTextModel {
        EncodedTextModel { text: self.text@, cstr: self.cstr@ }
    }
}

/// The values of a list of texts.
pub open spec fn texts_view(s: Seq<EncodedText>) -> Seq<EncodedTextModel> {
    Seq::new(s.len(), |i: int| s[i]@)
}

/// The value of an optional text.
pub open spec fn encoded_view(s: Option<EncodedText>) -> Option<EncodedTextModel> {
    match s {
        Some(x) => Some(x@),
        None => None,
    }
}

impl EncodedText {
    /// The text.
    pub fn as_str(&self) -> (r: &str)
        ensures
            r@ == self@.text,
    {
        self.text.as_str()
    }

    /// The zero-terminated bytes of the text.
    pub fn as_cstr(&self) -> (r: &Vec<u8>)
        ensures
            r@ == self@.cstr,
    {
        &self.cstr
    }
}

/// A parameter of a compiled script.
#[derive(Debug)]
pub struct CompiledScriptParameter {
    pub(crate) name: EncodedText,
    pub(crate) value_type: ValueType,
    pub(crate) file: usize,
    pub(crate) line: usize,
    pub(crate) column: usize,
}

/// The value of a `CompiledScriptParameter`.
pub struct CompiledScriptParameterModel {
    pub name: EncodedTextModel,
    pub value_type: ValueType,
    pub file: usize,
    pub line: usize,
    pub column: usize,
}

impl View for CompiledScriptParameter {
    type V = CompiledScriptParameterModel;

    open(crate) spec fn view(&self) -> CompiledScriptParameterModel {
        CompiledScriptParameterModel {
            name: self.name@,
            value_type: self.value_type,
            file: self.file,
            line: self.line,
            column: self.column,
        }
    }
}

/// The values of a list of parameters.
pub open spec fn compiled_parameters_view(s: Seq<CompiledScriptParameter>) -> Seq<
    CompiledScriptParameterModel,
> {
    Seq::new(s.len(), |i: int| s[i]@)
}

impl CompiledScriptParameter {
    /// The name of the parameter.
    pub fn get_name(&self) -> (r: &str)
        ensures
            r@ == self@.name.text,
    {
        self.name.as_str()
    }

    /// The name of the parameter as a zero-terminated string.
    pub fn get_name_cstr(&self) -> (r: &Vec<u8>)
        ensures
            r@ == self@.name.cstr,
    {
        self.name.as_cstr()
    }

    /// The type of the parameter.
    pub fn get_value_type(&self) -> (r: ValueType)
        ensures
            r == self@.value_type,
    {
        self.value_type
    }

    /// The position of the parameter's file in the file table.
    pub fn get_file(&self) -> (r: usize)
        ensures
            r == self@.file,
    {
        self.file
    }

    /// The line of the parameter, counted from one.
    pub fn get_line(&self) -> (r: usize)
        ensures
            r == self@.line,
    {
        self.line
    }

    /// The column of the parameter, counted from one.
    pub fn get_column(&self) -> (r: usize)
        ensures
            r == self@.column,
    {
        self.column
    }
}

/// A compiled script.
#[derive(Debug)]
pub struct CompiledScript {
    pub(crate) name: EncodedText,
    pub(crate) value_type: ValueType,
    pub(crate) script_type: ScriptType,
    pub(crate) first_node: usize,
    pub(crate) parameters: Vec<CompiledScriptParameter>,
    pub(crate) file: usize,
    pub(crate) line: usize,
    pub(crate) column: usize,
}

/// The value of a `CompiledScript`.
pub struct CompiledScriptModel {
    pub name: EncodedTextModel,
    pub value_type: ValueType,
    pub script_type: ScriptType,
    pub first_node: usize,
    pub parameters: Seq<CompiledScriptParameterModel>,
    pub file: usize,
    pub line: usize,
    pub column: usize,
}

impl View for CompiledScript {
    type V = CompiledScriptModel;

    open(crate) spec fn view(&self) -> CompiledScriptModel {
        CompiledScriptModel {
            name: self.name@,
            value_type: self.value_type,
            script_type: self.script_type,
            first_node: self.first_node,
            parameters: compiled_parameters_view(self.parameters@),
            file: self.file,
            line: self.line,
            column: self.column,
        }
    }
}

/// The values of a list of scripts.
pub open spec fn compiled_scripts_view(s: Seq<CompiledScript>) -> Seq<CompiledScriptModel> {
    Seq::new(s.len(), |i: int| s[i]@)
}

impl CompiledScript {
    /// The name of the script.
    pub fn get_name(&self) -> (r: &str)
        ensures
            r@ == self@.name.text,
    {
        self.name.as_str()
    }

    /// The name of the script as a zero-terminated string.
    pub fn get_name_cstr(&self) -> (r: &Vec<u8>)
        ensures
            r@ == self@.name.cstr,
    {
        self.name.as_cstr()
    }

    /// The return type.
    pub fn get_value_type(&self) -> (r: ValueType)
        ensures
            r == self@.value_type,
    {
        self.value_type
    }

    /// The kind of the script.
    pub fn get_type(&self) -> (r: ScriptType)
        ensures
            r == self@.script_type,
    {
        self.script_type
    }

    /// The position of the script's first node in the node array.
    pub fn get_first_node_index(&self) -> (r: usize)
        ensures
            r == self@.first_node,
    {
        self.first_node
    }

    /// The position of the script's file in the file table.
    pub fn get_file(&self) -> (r: usize)
        ensures
            r == self@.file,
    {
        self.file
    }

    /// The line of the script, counted from one.
    pub fn get_line(&self) -> (r: usize)
        ensures
            r == self@.line,
    {
        self.line
    }

    /// The column of the script, counted from one.
    pub fn get_column(&self) -> (r: usize)
        ensures
            r == self@.column,
    {
        self.column
    }

    /// The parameters of the script.
    pub fn get_parameters(&self) -> (r: &Vec<CompiledScriptParameter>)
        ensures
            compiled_parameters_view(r@) == self@.parameters,
    {
        &self.parameters
    }
}

/// A compiled global.
#[derive(Debug)]
pub struct CompiledGlobal {
    pub(crate) name: EncodedText,
    pub(crate) value_type: ValueType,
    pub(crate) first_node: usize,
    pub(crate) file: usize,
    pub(crate) line: usize,
    pub(crate) column: usize,
}

/// The value of a `CompiledGlobal`.
pub struct CompiledGlobalModel {
    pub name: EncodedTextModel,
    pub value_type: ValueType,
    pub first_node: usize,
    pub file: usize,
    pub line: usize,
    pub column: usize,
}

impl View for CompiledGlobal {
    type V = CompiledGlobalModel;

    open(crate) spec fn view(&self) -> CompiledGlobalModel {
        CompiledGlobalModel {
            name: self.name@,
            value_type: self.value_type,
            first_node: self.first_node,
            file: self.file,
            line: self.line,
            column: self.column,
        }
    }
}

/// The values of a list of globals.
pub open spec fn compiled_globals_view(s: Seq<CompiledGlobal>) -> Seq<CompiledGlobalModel> {
    Seq::new(s.len(), |i: int| s[i]@)
}

impl CompiledGlobal {
    /// The name of the global.
    pub fn get_name(&self) -> (r: &str)
        ensures
            r@ == self@.name.text,
    {
        self.name.as_str()
    }

    /// The name of the global as a zero-terminated string.
    pub fn get_name_cstr(&self) -> (r: &Vec<u8>)
        ensures
            r@ == self@.name.cstr,
    {
        self.name.as_cstr()
    }

    /// The type of the global.
    pub fn get_value_type(&self) -> (r: ValueType)
        ensures
            r == self@.value_type,
    {
        self.value_type
    }

    /// The position of the global's first node in the node array.
    pub fn get_first_node_index(&self) -> (r: usize)
        ensures
            r == self@.first_node,
    {
        self.first_node
    }

    /// The position of the global's file in the file table.
    pub fn get_file(&self) -> (r: usize)
        ensures
            r == self@.file,
    {
        self.file
    }

    /// The line of the global, counted from one.
    pub fn get_line(&self) -> (r: usize)
        ensures
            r == self@.line,
    {
        self.line
    }

    /// The column of the global, counted from one.
    pub fn get_column(&self) -> (r: usize)
        ensures
            r == self@.column,
    {
        self.column
    }
}

/// A node of the flat array.
#[derive(Debug)]
pub struct CompiledNode {
    pub(crate) node_type: NodeType,
    pub(crate) value_type: ValueType,
    pub(crate) data: Option<NodeData>,
    pub(crate) string_data: Option<EncodedText>,
    pub(crate) next_node: Option<usize>,
    pub(crate) index: Option<u16>,
    pub(crate) file: usize,
    pub(crate) line: usize,
    pub(crate) column: usize,
}

/// The value of a `CompiledNode`.
pub struct CompiledNodeModel {
    pub node_type: NodeType,
    pub value_type: ValueType,
    pub data: Option<NodeDataModel>,
    pub string_data: Option<EncodedTextModel>,
    pub next_node: Option<usize>,
    pub index: Option<u16>,
    pub file: usize,
    pub line: usize,
    pub column: usize,
}

impl View for CompiledNode {
    type V = CompiledNodeModel;

    open(crate) spec fn view(&self) -> CompiledNodeModel {
        CompiledNodeModel {
            node_type: self.node_type,
            value_type: self.value_type,
            data: data_view(self.data),
            string_data: encoded_view(self.string_data),
            next_node: self.next_node,
            index: self.index,
            file: self.file,
            line: self.line,
            column: self.column,
        }
    }
}

/// The values of a list of nodes.
pub open spec fn compiled_nodes_view(s: Seq<CompiledNode>) -> Seq<CompiledNodeModel> {
    Seq::new(s.len(), |i: int| s[i]@)
}

impl CompiledNode {
    /// The kind of the node.
    pub fn get_type(&self) -> (r: NodeType)
        ensures
            r == self@.node_type,
    {
        self.node_type
    }

    /// The type of the node's value.
    pub fn get_value_type(&self) -> (r: ValueType)
        ensures
            r == self@.value_type,
    {
        self.value_type
    }

    /// The data of the node, if it has any.
    pub fn get_data(&self) -> (r: Option<NodeData>)
        ensures
            data_view(r) == self@.data,
    {
        duplicate_data(&self.data)
    }

    /// The text of the node, if it has any.
    pub fn get_string_data(&self) -> (r: Option<&str>)
        ensures
            match r {
                Some(s) => self@.string_data is Some && s@ == self@.string_data->0.text,
                None => self@.string_data is None,
            },
    {
        match &self.string_data {
            Some(n) => Some(n.as_str()),
            None => None,
        }
    }

    /// The text of the node as a zero-terminated string, if it has any.
    pub fn get_string_data_cstr(&self) -> (r: Option<&Vec<u8>>)
        ensures
            match r {
                Some(s) => self@.string_data is Some && s@ == self@.string_data->0.cstr,
                None => self@.string_data is None,
            },
    {
        match &self.string_data {
            Some(n) => Some(n.as_cstr()),
            None => None,
        }
    }

    /// The position of the next argument of the same call, if there is one.
    pub fn get_next_node_index(&self) -> (r: Option<usize>)
        ensures
            r == self@.next_node,
    {
        self.next_node
    }

    /// The index of the function or script that a call names.
    pub fn get_index(&self) -> (r: Option<u16>)
        ensures
            r == self@.index,
    {
        self.index
    }

    /// The index of the node where it has one, and the number of its type
    /// where it has none.
    pub fn get_index_union(&self) -> (r: u16)
        ensures
            r == match self@.index {
                Some(i) => i,
                None => self@.value_type.number(),
            },
    {
        match self.index {
            Some(i) => i,
            None => self.value_type.as_int(),
        }
    }

    /// The position of the node's file in the file table.
    pub fn get_file(&self) -> (r: usize)
        ensures
            r == self@.file,
    {
        self.file
    }

    /// The line of the node, counted from one.
    pub fn get_line(&self) -> (r: usize)
        ensures
            r == self@.line,
    {
        self.line
    }

    /// The column of the node, counted from one.
    pub fn get_column(&self) -> (r: usize)
        ensures
            r == self@.column,
    {
        self.column
    }
}

/// What a compilation gives.
#[derive(Debug)]
pub struct CompiledScriptData {
    pub(crate) scripts: Vec<CompiledScript>,
    pub(crate) globals: Vec<CompiledGlobal>,
    pub(crate) files: Vec<EncodedText>,
    pub(crate) warnings: Vec<CompileError>,
    pub(crate) nodes: Vec<CompiledNode>,
}

/// The value of a `CompiledScriptData`.
pub struct CompiledScriptDataModel {
    pub scripts: Seq<CompiledScriptModel>,
    pub globals: Seq<CompiledGlobalModel>,
    pub files: Seq<EncodedTextModel>,
    pub warnings: Seq<CompileErrorModel>,
    pub nodes: Seq<CompiledNodeModel>,
}

impl View for CompiledScriptData {
    type V = CompiledScriptDataModel;

    open(crate) spec fn view(&self) -> CompiledScriptDataModel {
        CompiledScriptDataModel {
            scripts: compiled_scripts_view(self.scripts@),
            globals: compiled_globals_view(self.globals@),
            files: texts_view(self.files@),
            warnings: compile_errors_view(self.warnings@),
            nodes: compiled_nodes_view(self.nodes@),
        }
    }
}

impl CompiledScriptData {
    /// The scripts, in the order of their definition.
    pub fn get_scripts(&self) -> (r: &Vec<CompiledScript>)
        ensures
            compiled_scripts_view(r@) == self@.scripts,
    {
        &self.scripts
    }

    /// The globals, in the order of their definition.
    pub fn get_globals(&self) -> (r: &Vec<CompiledGlobal>)
        ensures
            compiled_globals_view(r@) == self@.globals,
    {
        &self.globals
    }

    /// The names of the files, in the order in which they were read.
    pub fn get_files(&self) -> (r: &Vec<EncodedText>)
        ensures
            texts_view(r@) == self@.files,
    {
        &self.files
    }

    /// The warnings, in the order in which they were found.
    pub fn get_warnings(&self) -> (r: &Vec<CompileError>)
        ensures
            compile_errors_view(r@) == self@.warnings,
    {
        &self.warnings
    }

    /// The flat array of nodes.
    pub fn get_nodes(&self) -> (r: &Vec<CompiledNode>)
        ensures
            compiled_nodes_view(r@) == self@.nodes,
    {
        &self.nodes
    }
}

} // verus!
