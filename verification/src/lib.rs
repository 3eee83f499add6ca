//! A compiler for a Lisp-like scripting language: from the bytes of script
//! files to a flat array of typed nodes.

pub mod compile;
pub mod compiler;
pub mod definitions;
pub mod error;
pub mod generate;
pub mod laws;
pub mod text;
pub mod token;
pub mod types;
pub mod value_type;

pub use crate::compile::types::CompiledGlobal;
pub use crate::compile::types::CompiledNode;
pub use crate::compile::types::CompiledScript;
pub use crate::compile::types::CompiledScriptData;
pub use crate::compile::types::CompiledScriptParameter;
pub use crate::compiler::Compiler;
pub use crate::error::CompileError;
pub use crate::error::CompileErrorType;
pub use crate::error::ErrorKind;
pub use crate::types::CompileEncoding;
pub use crate::types::CompileTarget;
pub use crate::types::NodeData;
pub use crate::types::NodeType;
pub use crate::types::NodeTypeC;
pub use crate::types::PrimitiveType;
pub use crate::types::ScriptType;
pub use crate::value_type::ValueType;
