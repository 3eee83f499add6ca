//! Diagnostics: what went wrong, where, and how bad it is.

use crate::text::concat3;
use crate::text::decimal;
use crate::text::decimal_string;
use crate::types::CompileEncoding;
use vstd::prelude::*;
use vstd::string::*;

verus! {

/// How bad a diagnostic is.
#[derive(Copy, Clone, PartialEq, Eq, Structural, Debug)]
pub enum CompileErrorType {
    /// The code is valid but probably not what was meant.
    Warning,
    /// The code is invalid.
    Error,
}

impl CompileErrorType {
    /// The word for the severity.
    pub open spec fn word(self) -> Seq<char> {
        match self {
            CompileErrorType::Warning => "warning"@,
            CompileErrorType::Error => "error"@,
        }
    }

    /// The word for the severity.
    pub fn as_str(&self) -> (r: &'static str)
        ensures
            r@ == self.word(),
    {
        match *self {
            CompileErrorType::Warning => "warning",
            CompileErrorType::Error => "error",
        }
    }
}

/// What a diagnostic is about.
#[derive(Copy, Clone, PartialEq, Eq, Structural, Debug)]
pub enum ErrorKind {
    /// The bytes of a token have no reading in the chosen encoding.
    DecodeFailure,
    /// A zero byte stands before the end of the input.
    UnexpectedNull,
    /// The input ends inside a token.
    UnterminatedToken,
    /// The input ends inside a block.
    UnterminatedBlock,
    /// A block holds nothing.
    EmptyBlock,
    /// Something other than a block stands at the top level.
    ExpectedLeftParenthesis,
    /// A top-level block begins with neither `global` nor `script`.
    ExpectedGlobalOrScript,
    /// A global definition has fewer than four parts.
    IncompleteGlobal,
    /// A global definition has more than four parts.
    ExtraneousToken,
    /// The name of a global is a block.
    ExpectedGlobalName,
    /// The type of a global is unknown or may not be declared.
    BadGlobalType,
    /// A script definition is too short.
    IncompleteScript,
    /// The kind of a script is unknown.
    BadScriptKind,
    /// The return type of a script is unknown or may not be declared.
    BadScriptReturnType,
    /// The name of a script is a block where none may stand.
    ExpectedScriptName,
    /// Script parameters are declared where the target has none.
    ScriptParametersUnsupported,
    /// Script parameters are declared on a kind that takes none.
    ScriptParametersNotAllowed,
    /// More script parameters are declared than the target takes.
    TooManyScriptParameters,
    /// A script parameter is not of the form `(<type> <name>)`.
    BadScriptParameter,
    /// A script is named like a built-in form.
    ScriptNameReserved,
    /// A name is longer than 31 bytes.
    NameTooLong,
    /// A call names no function.
    UnknownFunction,
    /// A call has fewer arguments than the function needs.
    TooFewArgs,
    /// A call has more arguments than the function takes.
    TooManyArgs,
    /// A value cannot stand where another type is expected.
    ConvertError,
    /// A literal cannot be read as its type.
    BadLiteral,
    /// The types of a call's arguments do not fit the function.
    PassthroughTypeMismatch,
    /// `set` is applied to something that is no global.
    SetOnNonGlobal,
    /// A `cond` is empty or has an arm without a body.
    CondShape,
    /// A value is left without a type.
    UnresolvedType,
    /// A stub shares its name with a script that is not static.
    StubNotReplaceableByNonStatic,
    /// A stub and its replacement return different types.
    StubReturnMismatch,
    /// Two scripts have the same name.
    DuplicateScript,
    /// Two globals have the same name.
    DuplicateGlobal,
    /// There are more than 32767 scripts.
    TooManyScripts,
    /// There are more than 32767 globals.
    TooManyGlobals,
    /// A global is read in the initializer of itself or of an earlier global.
    UninitializedGlobal,
    /// A word is written with capitals and was read in lower case.
    CaseChanged,
}

/// A diagnostic as the compiler's passes make it: the file is given by its
/// position in the compiler's file table.
#[derive(Debug)]
pub struct Diagnostic {
    pub kind: ErrorKind,
    pub message: String,
    pub file: usize,
    pub line: usize,
    pub column: usize,
}

/// The value of a `Diagnostic`.
pub struct DiagnosticModel {
    pub kind: ErrorKind,
    pub message: Seq<char>,
    pub file: usize,
    pub line: usize,
    pub column: usize,
}

impl View for Diagnostic {
    type V = DiagnosticModel;

    open spec fn view(&self) -> DiagnosticModel {
        DiagnosticModel {
            kind: self.kind,
            message: self.message@,
            file: self.file,
            line: self.line,
            column: self.column,
        }
    }
}

/// The values of a list of diagnostics.
pub open spec fn diagnostics_view(s: Seq<Diagnostic>) -> Seq<DiagnosticModel> {
    Seq::new(s.len(), |i: int| s[i]@)
}

/// A diagnostic as it is handed to the caller.
#[derive(Clone, Debug)]
pub struct CompileError {
    kind: ErrorKind,
    message: String,
    file: String,
    error_type: CompileErrorType,
    line: usize,
    column: usize,
    message_cstr: Vec<u8>,
    file_cstr: Vec<u8>,
}

/// The value of a `CompileError`.
pub struct CompileErrorModel {
    pub kind: ErrorKind,
    pub message: Seq<char>,
    pub file: Seq<char>,
    pub error_type: CompileErrorType,
    pub line: usize,
    pub column: usize,
    pub message_cstr: Seq<u8>,
    pub file_cstr: Seq<u8>,
}

/// The diagnostic that is handed out for a message at a place.
pub open spec fn error_record(
    encoding: CompileEncoding,
    file: Seq<char>,
    line: usize,
    column: usize,
    error_type: CompileErrorType,
    kind: ErrorKind,
    message: Seq<char>,
) -> CompileErrorModel {
    CompileErrorModel {
        kind,
        message,
        file,
        error_type,
        line,
        column,
        message_cstr: encoding.encoded(message).push(0),
        file_cstr: encoding.encoded(file).push(0),
    }
}

/// The name at a position of the file table; empty where the table has no
/// such position.
pub open spec fn file_name(files: Seq<Seq<char>>, file: usize) -> Seq<char> {
    if file < files.len() {
        files[file as int]
    } else {
        Seq::empty()
    }
}

/// The diagnostic that is handed out for a diagnostic of a pass.
pub open spec fn reported(
    encoding: CompileEncoding,
    files: Seq<Seq<char>>,
    error_type: CompileErrorType,
    d: DiagnosticModel,
) -> CompileErrorModel {
    error_record(
        encoding,
        file_name(files, d.file),
        d.line,
        d.column,
        error_type,
        d.kind,
        d.message,
    )
}

/// The line that describes a diagnostic: file, line, column, severity and
/// message, with colons between them.
pub open spec fn description(e: CompileErrorModel) -> Seq<char> {
    e.file + ":"@ + decimal(e.line as nat) + ":"@ + decimal(e.column as nat) + ": "@
        + e.error_type.word() + ": "@ + e.message
}

impl View for CompileError {
    type V = CompileErrorModel;

    closed spec fn view(&self) -> CompileErrorModel {
        CompileErrorModel {
            kind: self.kind,
            message: self.message@,
            file: self.file@,
            error_type: self.error_type,
            line: self.line,
            column: self.column,
            message_cstr: self.message_cstr@,
            file_cstr: self.file_cstr@,
        }
    }
}

/// The values of a list of diagnostics.
pub open spec fn compile_errors_view(s: Seq<CompileError>) -> Seq<CompileErrorModel> {
    Seq::new(s.len(), |i: int| s[i]@)
}

impl CompileError {
    /// A diagnostic for a message at a place. The file name and the message
    /// are also kept as zero-terminated strings in the given encoding.
    pub fn from_message(
        encoding: CompileEncoding,
        file: &str,
        line: usize,
        column: usize,
        error_type: CompileErrorType,
        kind: ErrorKind,
        message: &str,
    ) -> (r: CompileError)
        ensures
            r@ == error_record(encoding, file@, line, column, error_type, kind, message@),
    {
        CompileError {
            kind,
            message: message.to_owned(),
            file: file.to_owned(),
            error_type,
            line,
            column,
            message_cstr: encoding.encode_to_cstring(message),
            file_cstr: encoding.encode_to_cstring(file),
        }
    }

    /// The message.
    pub fn get_message(&self) -> (r: &str)
        ensures
            r@ == self@.message,
    {
        self.message.as_str()
    }

    /// The name of the file.
    pub fn get_file(&self) -> (r: &str)
        ensures
            r@ == self@.file,
    {
        self.file.as_str()
    }

    /// The message as a zero-terminated string in the compiler's encoding.
    pub fn get_message_cstr(&self) -> (r: &Vec<u8>)
        ensures
            r@ == self@.message_cstr,
    {
        &self.message_cstr
    }

    /// The name of the file as a zero-terminated string in the compiler's
    /// encoding.
    pub fn get_file_cstr(&self) -> (r: &Vec<u8>)
        ensures
            r@ == self@.file_cstr,
    {
        &self.file_cstr
    }

    /// The severity.
    pub fn get_error_type(&self) -> (r: CompileErrorType)
        ensures
            r == self@.error_type,
    {
        self.error_type
    }

    /// What the diagnostic is about.
    pub fn get_kind(&self) -> (r: ErrorKind)
        ensures
            r == self@.kind,
    {
        self.kind
    }

    /// The line and the column, both counted from one.
    pub fn get_position(&self) -> (r: (usize, usize))
        ensures
            r == (self@.line, self@.column),
    {
        (self.line, self.column)
    }

    /// The line that describes the diagnostic.
    pub fn to_string(&self) -> (r: String)
        ensures
            r@ == description(self@),
    {
        let line = decimal_string(self.line);
        let column = decimal_string(self.column);
        let mut s = concat3(self.file.as_str(), ":", line.as_str());
        s.append(":");
        s.append(column.as_str());
        s.append(": ");
        s.append(self.error_type.as_str());
        s.append(": ");
        s.append(self.message.as_str());
        s
    }
}

} // verus!
