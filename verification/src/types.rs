//! Compile targets, script kinds, node kinds, node data and text encodings.

use crate::text::str_equal;
use encoding::all::WINDOWS_1252;
use encoding::DecoderTrap;
use encoding::EncoderTrap;
use encoding::Encoding;
use vstd::prelude::*;
use vstd::slice::slice_subrange;
use vstd::string::*;
use vstd::utf8::*;

verus! {

/// The engine that scripts are compiled for. It decides which functions and
/// globals exist and how many parameters a script may take.
#[derive(Copy, Clone, PartialEq, Eq, Structural, Debug)]
pub enum CompileTarget {
    /// Halo: Combat Evolved Anniversary.
    HaloCEA,
    /// Halo: Combat Evolved on Xbox (NTSC).
    HaloCEXboxNTSC,
    /// Halo: Combat Evolved on PC and Mac.
    HaloCEGBX,
    /// The demo of Halo: Combat Evolved on PC.
    HaloCEGBXDemo,
    /// Halo Custom Edition.
    HaloCustomEdition,
}

impl CompileTarget {
    /// The largest number of parameters that a script may declare.
    pub open spec fn script_parameter_limit(self) -> usize {
        if self == CompileTarget::HaloCEA {
            16
        } else {
            0
        }
    }

    /// The largest number of parameters that a script may declare; zero where
    /// the engine has no script parameters.
    pub fn maximum_script_parameters(&self) -> (r: usize)
        ensures
            r == self.script_parameter_limit(),
    {
        match *self {
            CompileTarget::HaloCEA => 16,
            _ => 0,
        }
    }

    /// The name of the engine, as shown to a user.
    pub open spec fn title(self) -> Seq<char> {
        match self {
            CompileTarget::HaloCEA => "Halo: Combat Evolved Anniversary"@,
            CompileTarget::HaloCustomEdition => "Halo: Custom Edition"@,
            CompileTarget::HaloCEGBX => "Halo: Combat Evolved (PC / Mac)"@,
            CompileTarget::HaloCEGBXDemo => "Halo: Combat Evolved Demo (PC / Mac)"@,
            CompileTarget::HaloCEXboxNTSC => "Halo: Combat Evolved (Xbox)"@,
        }
    }

    /// The name of the engine, as shown to a user.
    pub fn as_str(&self) -> (r: &'static str)
        ensures
            r@ == self.title(),
    {
        match *self {
            CompileTarget::HaloCEA => "Halo: Combat Evolved Anniversary",
            CompileTarget::HaloCustomEdition => "Halo: Custom Edition",
            CompileTarget::HaloCEGBX => "Halo: Combat Evolved (PC / Mac)",
            CompileTarget::HaloCEGBXDemo => "Halo: Combat Evolved Demo (PC / Mac)",
            CompileTarget::HaloCEXboxNTSC => "Halo: Combat Evolved (Xbox)",
        }
    }
}

/// How a script is started, which decides how its header reads.
#[derive(Copy, Clone, PartialEq, Eq, Structural, Debug)]
pub enum ScriptType {
    /// Runs once when the map starts. Returns nothing.
    Startup,
    /// Sleeps until it is woken. Returns nothing.
    Dormant,
    /// Runs every tick. Returns nothing.
    Continuous,
    /// Runs when called.
    Static,
    /// A static script that a later static script of the same name replaces.
    Stub,
}

impl ScriptType {
    /// True for the kinds that have no return type in their header.
    pub open spec fn returns_void(self) -> bool {
        self != ScriptType::Static && self != ScriptType::Stub
    }

    /// Whether the kind has no return type in its header.
    pub fn always_returns_void(&self) -> (r: bool)
        ensures
            r == self.returns_void(),
    {
        match *self {
            ScriptType::Static | ScriptType::Stub => false,
            _ => true,
        }
    }

    /// The position of the first body expression in the script's block.
    pub open spec fn body_offset(self) -> usize {
        if self.returns_void() {
            3
        } else {
            4
        }
    }

    /// The position of the first body expression in the script's block:
    /// after `script`, the kind, the return type where there is one, and the
    /// name.
    pub fn expression_offset(&self) -> (r: usize)
        ensures
            r == self.body_offset(),
    {
        if self.always_returns_void() {
            3
        } else {
            4
        }
    }

    /// The kind that a keyword stands for.
    pub open spec fn from_keyword(s: Seq<char>) -> Option<ScriptType> {
        if s == "static"@ {
            Some(ScriptType::Static)
        } else if s == "stub"@ {
            Some(ScriptType::Stub)
        } else if s == "continuous"@ {
            Some(ScriptType::Continuous)
        } else if s == "dormant"@ {
            Some(ScriptType::Dormant)
        } else if s == "startup"@ {
            Some(ScriptType::Startup)
        } else {
            None
        }
    }

    /// The kind that a keyword stands for, or `None` for any other text.
    pub fn from_str(input: &str) -> (r: Option<ScriptType>)
        ensures
            r == Self::from_keyword(input@),
    {
        if str_equal(input, "static") {
            Some(ScriptType::Static)
        } else if str_equal(input, "stub") {
            Some(ScriptType::Stub)
        } else if str_equal(input, "continuous") {
            Some(ScriptType::Continuous)
        } else if str_equal(input, "dormant") {
            Some(ScriptType::Dormant)
        } else if str_equal(input, "startup") {
            Some(ScriptType::Startup)
        } else {
            None
        }
    }

    /// The keyword of the kind.
    pub open spec fn keyword(self) -> Seq<char> {
        match self {
            ScriptType::Static => "static"@,
            ScriptType::Stub => "stub"@,
            ScriptType::Continuous => "continuous"@,
            ScriptType::Dormant => "dormant"@,
            ScriptType::Startup => "startup"@,
        }
    }

    /// The keyword of the kind.
    pub fn as_str(&self) -> (r: &'static str)
        ensures
            r@ == self.keyword(),
    {
        match *self {
            ScriptType::Static => "static",
            ScriptType::Stub => "stub",
            ScriptType::Continuous => "continuous",
            ScriptType::Dormant => "dormant",
            ScriptType::Startup => "startup",
        }
    }
}

/// What a node's data is: a parsed literal, an index, or the place of a
/// call's name node.
#[derive(Clone, PartialEq, Eq, Debug)]
pub enum NodeData {
    Boolean(bool),
    Short(i16),
    Long(i32),
    /// A real literal, kept as the text that was read.
    Real(String),
    NodeOffset(usize),
}

/// The value of a `NodeData`.
pub enum NodeDataModel {
    Boolean(bool),
    Short(i16),
    Long(i32),
    Real(Seq<char>),
    NodeOffset(usize),
}

impl View for NodeData {
    type V = NodeDataModel;

    open spec fn view(&self) -> NodeDataModel {
        match *self {
            NodeData::Boolean(b) => NodeDataModel::Boolean(b),
            NodeData::Short(v) => NodeDataModel::Short(v),
            NodeData::Long(v) => NodeDataModel::Long(v),
            NodeData::Real(s) => NodeDataModel::Real(s@),
            NodeData::NodeOffset(v) => NodeDataModel::NodeOffset(v),
        }
    }
}

impl NodeData {
    /// A copy with the same value.
    pub fn duplicate(&self) -> (r: NodeData)
        ensures
            r@ == self@,
    {
        match self {
            NodeData::Boolean(b) => NodeData::Boolean(*b),
            NodeData::Short(v) => NodeData::Short(*v),
            NodeData::Long(v) => NodeData::Long(*v),
            NodeData::Real(s) => NodeData::Real(s.clone()),
            NodeData::NodeOffset(v) => NodeData::NodeOffset(*v),
        }
    }
}

/// The value of an optional `NodeData`.
pub open spec fn data_view(d: Option<NodeData>) -> Option<NodeDataModel> {
    match d {
        Some(x) => Some(x@),
        None => None,
    }
}

/// The value of an optional text.
pub open spec fn text_view(s: Option<String>) -> Option<Seq<char>> {
    match s {
        Some(x) => Some(x@),
        None => None,
    }
}

/// A copy of optional node data.
pub fn duplicate_data(d: &Option<NodeData>) -> (r: Option<NodeData>)
    ensures
        data_view(r) == data_view(*d),
{
    match d {
        Some(x) => Some(x.duplicate()),
        None => None,
    }
}

/// A copy of an optional text.
pub fn duplicate_text(s: &Option<String>) -> (r: Option<String>)
    ensures
        text_view(r) == text_view(*s),
{
    match s {
        Some(x) => Some(x.clone()),
        None => None,
    }
}

/// What a primitive node stands for.
#[derive(Copy, Clone, PartialEq, Eq, Structural, Debug)]
pub enum PrimitiveType {
    /// A literal.
    Static,
    /// A parameter of the enclosing script.
    Local,
    /// A global.
    Global,
}

/// The kind of a node.
#[derive(Copy, Clone, PartialEq, Eq, Structural, Debug)]
pub enum NodeType {
    /// A value. For a variable the node's text is the variable's name.
    Primitive(PrimitiveType),
    /// A call; `true` for a function of the engine, `false` for a script.
    FunctionCall(bool),
}

impl Default for NodeType {
    fn default() -> (r: NodeType)
        ensures
            r == NodeType::Primitive(PrimitiveType::Static),
    {
        NodeType::Primitive(PrimitiveType::Static)
    }
}

impl NodeType {
    /// Whether the node is a local or a global variable.
    pub fn is_variable(&self) -> (r: bool)
        ensures
            r == (*self == NodeType::Primitive(PrimitiveType::Local) || *self
                == NodeType::Primitive(PrimitiveType::Global)),
    {
        match *self {
            NodeType::Primitive(PrimitiveType::Local) => true,
            NodeType::Primitive(PrimitiveType::Global) => true,
            _ => false,
        }
    }

    /// Whether the node is a literal.
    pub fn is_static_value(&self) -> (r: bool)
        ensures
            r == (*self == NodeType::Primitive(PrimitiveType::Static)),
    {
        match *self {
            NodeType::Primitive(PrimitiveType::Static) => true,
            _ => false,
        }
    }

    /// Whether the node is a global variable.
    pub fn is_global(&self) -> (r: bool)
        ensures
            r == (*self == NodeType::Primitive(PrimitiveType::Global)),
    {
        match *self {
            NodeType::Primitive(PrimitiveType::Global) => true,
            _ => false,
        }
    }

    /// Whether the node is a primitive other than a global variable.
    pub fn is_nonglobal_primitive(&self) -> (r: bool)
        ensures
            r == (*self == NodeType::Primitive(PrimitiveType::Static) || *self
                == NodeType::Primitive(PrimitiveType::Local)),
    {
        match *self {
            NodeType::Primitive(PrimitiveType::Static) => true,
            NodeType::Primitive(PrimitiveType::Local) => true,
            _ => false,
        }
    }

    /// Whether the node calls a function of the engine.
    pub fn is_engine_function(&self) -> (r: bool)
        ensures
            r == (*self == NodeType::FunctionCall(true)),
    {
        match *self {
            NodeType::FunctionCall(true) => true,
            _ => false,
        }
    }

    /// Whether the node calls a script.
    pub fn is_script(&self) -> (r: bool)
        ensures
            r == (*self == NodeType::FunctionCall(false)),
    {
        match *self {
            NodeType::FunctionCall(false) => true,
            _ => false,
        }
    }

    /// Whether the node is a value.
    pub fn is_primitive(&self) -> (r: bool)
        ensures
            r == (*self is Primitive),
    {
        match *self {
            NodeType::Primitive(_) => true,
            _ => false,
        }
    }

    /// Whether the node is a call.
    pub fn is_function_call(&self) -> (r: bool)
        ensures
            r == (*self is FunctionCall),
    {
        match *self {
            NodeType::FunctionCall(_) => true,
            _ => false,
        }
    }
}

/// The kind of a node as one flat tag.
#[derive(Copy, Clone, PartialEq, Eq, Structural, Debug)]
pub enum NodeTypeC {
    StaticValue,
    LocalVariable,
    GlobalVariable,
    /// A call of a function of the engine.
    FunctionCall,
    ScriptCall,
}

impl NodeTypeC {
    /// The tag of a kind of node.
    pub open spec fn tag(t: NodeType) -> NodeTypeC {
        match t {
            NodeType::Primitive(PrimitiveType::Local) => NodeTypeC::LocalVariable,
            NodeType::Primitive(PrimitiveType::Global) => NodeTypeC::GlobalVariable,
            NodeType::Primitive(PrimitiveType::Static) => NodeTypeC::StaticValue,
            NodeType::FunctionCall(true) => NodeTypeC::FunctionCall,
            NodeType::FunctionCall(false) => NodeTypeC::ScriptCall,
        }
    }

    /// The tag of a kind of node.
    pub fn new(t: NodeType) -> (r: NodeTypeC)
        ensures
            r == Self::tag(t),
    {
        match t {
            NodeType::Primitive(PrimitiveType::Local) => NodeTypeC::LocalVariable,
            NodeType::Primitive(PrimitiveType::Global) => NodeTypeC::GlobalVariable,
            NodeType::Primitive(PrimitiveType::Static) => NodeTypeC::StaticValue,
            NodeType::FunctionCall(true) => NodeTypeC::FunctionCall,
            NodeType::FunctionCall(false) => NodeTypeC::ScriptCall,
        }
    }
}

/// The encoding of the bytes that are read and of the strings that are
/// written.
#[derive(Copy, Clone, PartialEq, Eq, Structural, Debug)]
pub enum CompileEncoding {
    /// UTF-8.
    UTF8,
    /// Windows-1252, the encoding of the engine.
    Windows1252,
}

/// The text that the Windows-1252 decoder gives for these bytes, with
/// U+FFFD in place of a byte that it cannot decode.
pub uninterp spec fn windows_1252_decoding(bytes: Seq<u8>) -> Seq<char>;

/// The bytes that the Windows-1252 encoder gives for this text, with `?` in
/// place of a character that it cannot encode.
pub uninterp spec fn windows_1252_encoding(text: Seq<char>) -> Seq<u8>;

/// The description that the standard library gives of the first fault in
/// bytes that are not UTF-8.
pub uninterp spec fn utf8_fault(bytes: Seq<u8>) -> Seq<char>;

/// Calls `WINDOWS_1252.decode` of the `encoding` crate with the trap
/// `Replace`. With that trap the decoder goes on after every fault, so the
/// call always succeeds; what it returns is named, not spelled out.
#[verifier::external_body]
fn windows_1252_decode(bytes: &[u8]) -> (r: Result<String, String>)
    ensures
        r is Ok,
        r->Ok_0@ == windows_1252_decoding(bytes@),
{
    match WINDOWS_1252.decode(bytes, DecoderTrap::Replace) {
        Ok(n) => Ok(n),
        Err(e) => Err(e.into_owned()),
    }
}

/// Calls `WINDOWS_1252.encode` of the `encoding` crate with the trap
/// `Replace`. With that trap the encoder writes `?` for every character it
/// cannot encode and goes on, so the call always succeeds; what it returns
/// is named, not spelled out.
#[verifier::external_body]
fn windows_1252_encode(text: &str) -> (r: Result<Vec<u8>, String>)
    ensures
        r is Ok,
        r->Ok_0@ == windows_1252_encoding(text@),
{
    match WINDOWS_1252.encode(text, EncoderTrap::Replace) {
        Ok(n) => Ok(n),
        Err(e) => Err(e.into_owned()),
    }
}

/// Calls `core::str::from_utf8`: the text that the bytes encode where they
/// are UTF-8, and otherwise the description of the fault, as its `Debug`
/// form reads.
#[verifier::external_body]
fn utf8_decode(bytes: &[u8]) -> (r: Result<String, String>)
    ensures
        match r {
            Ok(s) => valid_utf8(bytes@) && s@ == decode_utf8(bytes@),
            Err(e) => !valid_utf8(bytes@) && e@ == utf8_fault(bytes@),
        },
{
    match core::str::from_utf8(bytes) {
        Ok(n) => Ok(n.to_owned()),
        Err(e) => Err(format!("{e:?}")),
    }
}

/// The first position that holds a zero byte, or the length where none does.
pub open spec fn terminator_position(bytes: Seq<u8>) -> int
    decreases bytes.len(),
{
    if bytes.len() == 0 || bytes[0] == 0 {
        0
    } else {
        1 + terminator_position(bytes.drop_first())
    }
}

impl CompileEncoding {
    /// The bytes of a text in this encoding.
    pub open spec fn encoded(self, text: Seq<char>) -> Seq<u8> {
        match self {
            CompileEncoding::UTF8 => encode_utf8(text),
            CompileEncoding::Windows1252 => windows_1252_encoding(text),
        }
    }

    /// The text of bytes in this encoding, or the description of why they
    /// have none.
    pub open spec fn decoded(self, bytes: Seq<u8>) -> Result<Seq<char>, Seq<char>> {
        match self {
            CompileEncoding::UTF8 => if valid_utf8(bytes) {
                Ok(decode_utf8(bytes))
            } else {
                Err(utf8_fault(bytes))
            },
            CompileEncoding::Windows1252 => Ok(windows_1252_decoding(bytes)),
        }
    }

    /// The bytes of the text in this encoding, followed by a zero byte.
    pub fn encode_to_cstring(&self, string: &str) -> (r: Vec<u8>)
        ensures
            r@ == self.encoded(string@).push(0),
    {
        let mut bytes = match *self {
            CompileEncoding::UTF8 => string.as_bytes_vec(),
            CompileEncoding::Windows1252 => match windows_1252_encode(string) {
                Ok(v) => v,
                Err(_) => Vec::new(),
            },
        };
        bytes.push(0);
        bytes
    }

    /// The text of the bytes before the first zero byte, or of all of them
    /// where none is zero.
    pub fn decode_from_cstring(&self, string: &[u8]) -> (r: Result<String, String>)
        ensures
            match r {
                Ok(s) => self.decoded(string@.subrange(0, terminator_position(string@))) == Ok::<
                    Seq<char>,
                    Seq<char>,
                >(s@),
                Err(e) => self.decoded(string@.subrange(0, terminator_position(string@))) == Err::<
                    Seq<char>,
                    Seq<char>,
                >(e@),
            },
    {
        let mut end: usize = 0;
        assert(string@.subrange(0, string@.len() as int) =~= string@);
        while end < string.len() && string[end] != 0
            invariant
                end <= string.len(),
                terminator_position(string@) == end + terminator_position(
                    string@.subrange(end as int, string@.len() as int),
                ),
            decreases string.len() - end,
        {
            proof {
                let rest = string@.subrange(end as int, string@.len() as int);
                assert(rest.drop_first() =~= string@.subrange(end + 1, string@.len() as int));
            }
            end += 1;
        }
        self.decode_from_bytes(slice_subrange(string, 0, end))
    }

    /// The text of the bytes in this encoding. Bytes that are not UTF-8 are
    /// refused under `UTF8`; every byte has a reading under `Windows1252`.
    pub fn decode_from_bytes(&self, string: &[u8]) -> (r: Result<String, String>)
        ensures
            match r {
                Ok(s) => self.decoded(string@) == Ok::<Seq<char>, Seq<char>>(s@),
                Err(e) => self.decoded(string@) == Err::<Seq<char>, Seq<char>>(e@),
            },
    {
        match *self {
            CompileEncoding::UTF8 => utf8_decode(string),
            CompileEncoding::Windows1252 => windows_1252_decode(string),
        }
    }
}

} // verus!
