//! The compiler: it reads the bytes of script files into tokens and then
//! compiles all that it has read.

use crate::compile::capitals::capitals;
use crate::compile::capitals::find_all_capitals;
use crate::compile::checks::names_view;
use crate::compile::classify::classify_all;
use crate::compile::classify::Classification;
use crate::compile::digest::classify_tokens;
use crate::compile::digest::digest;
use crate::compile::digest::digest_tokens;
use crate::compile::emit::emission;
use crate::compile::emit::emit;
use crate::compile::emit::encode_text;
use crate::compile::emit::encoded_text;
use crate::compile::types::compiled_nodes_view;
use crate::compile::types::texts_view;
use crate::compile::types::CompiledScriptData;
use crate::compile::types::CompiledScriptDataModel;
use crate::compile::types::EncodedText;
use crate::definitions::Definitions;
use crate::definitions::EngineFunction;
use crate::definitions::EngineGlobal;
use crate::error::compile_errors_view;
use crate::error::diagnostics_view;
use crate::error::error_record;
use crate::error::reported;
use crate::error::CompileError;
use crate::error::CompileErrorModel;
use crate::error::CompileErrorType;
use crate::error::Diagnostic;
use crate::error::DiagnosticModel;
use crate::token::read_token_forest;
use crate::token::token_forest;
use crate::token::tokens_view;
use crate::token::Token;
use crate::token::TokenModel;
use crate::types::CompileEncoding;
use crate::types::CompileTarget;
use vstd::prelude::*;

verus! {

/// A compiler for one target, one encoding and one catalog.
pub struct Compiler {
    tokens: Vec<Token>,
    files: Vec<String>,
    target: CompileTarget,
    encoding: CompileEncoding,
    definitions: Definitions,
    warn_capitals: bool,
}

/// The value of a `Compiler`.
pub struct CompilerModel {
    /// The top-level blocks read so far.
    pub tokens: Seq<TokenModel>,
    /// The names of the files read so far.
    pub files: Seq<Seq<char>>,
    pub target: CompileTarget,
    pub encoding: CompileEncoding,
    pub functions: Seq<EngineFunction>,
    pub globals: Seq<EngineGlobal>,
    /// Whether words that are written with capitals are warned about.
    pub warn_capitals: bool,
}

impl View for Compiler {
    type V = CompilerModel;

    closed spec fn view(&self) -> CompilerModel {
        CompilerModel {
            tokens: tokens_view(self.tokens@),
            files: names_view(self.files@),
            target: self.target,
            encoding: self.encoding,
            functions: self.definitions.functions@,
            globals: self.definitions.globals@,
            warn_capitals: self.warn_capitals,
        }
    }
}

/// What reading a file does to a compiler: the file's blocks and its name
/// are added, or, where the file cannot be read, nothing changes and the
/// diagnostic names the file.
pub open spec fn reading(c: CompilerModel, filename: Seq<char>, script: Seq<u8>) -> Result<
    CompilerModel,
    CompileErrorModel,
> {
    match token_forest(c.encoding, script, c.files.len() as usize) {
        Ok(forest) => Ok(
            CompilerModel { tokens: c.tokens + forest, files: c.files.push(filename), ..c },
        ),
        Err(d) => Err(
            error_record(
                c.encoding,
                filename,
                d.line,
                d.column,
                CompileErrorType::Error,
                d.kind,
                d.message,
            ),
        ),
    }
}

/// The names of the files with their bytes in the encoding.
pub open spec fn file_table(c: CompilerModel) -> Seq<crate::compile::types::EncodedTextModel> {
    Seq::new(c.files.len(), |i: int| encoded_text(c.encoding, c.files[i]))
}

/// The diagnostics of the passes as they are handed out.
pub open spec fn reported_all(
    c: CompilerModel,
    error_type: CompileErrorType,
    diagnostics: Seq<DiagnosticModel>,
) -> Seq<CompileErrorModel> {
    Seq::new(diagnostics.len(), |i: int| reported(c.encoding, c.files, error_type, diagnostics[i]))
}

/// The warnings about capitals that a compiler gives: none unless it is
/// asked for them.
pub open spec fn capital_warnings(c: CompilerModel) -> Seq<DiagnosticModel> {
    if c.warn_capitals {
        match classify_all(
            c.tokens,
            c.target,
            0,
            Classification { scripts: Seq::empty(), globals: Seq::empty() },
        ) {
            Ok(d) => capitals(d),
            Err(_) => Seq::empty(),
        }
    } else {
        Seq::empty()
    }
}

/// What compiling gives for all that a compiler has read: the scripts, the
/// globals and the node array, with the file table and the warnings; or
/// the first error. The warnings about capitals come before the others.
pub open spec fn compilation(c: CompilerModel) -> Result<
    CompiledScriptDataModel,
    CompileErrorModel,
> {
    match digest(c.tokens, c.target, c.functions, c.globals) {
        Err(d) => Err(reported(c.encoding, c.files, CompileErrorType::Error, d)),
        Ok(x) => {
            let e = emission(x.scripts, x.globals, c.encoding);
            Ok(
                CompiledScriptDataModel {
                    scripts: e.scripts,
                    globals: e.globals,
                    files: file_table(c),
                    warnings: reported_all(
                        c,
                        CompileErrorType::Warning,
                        capital_warnings(c) + x.warnings,
                    ),
                    nodes: e.nodes,
                },
            )
        },
    }
}

fn report(
    encoding: CompileEncoding,
    files: &Vec<String>,
    error_type: CompileErrorType,
    d: &Diagnostic,
) -> (r: CompileError)
    ensures
        r@ == reported(encoding, names_view(files@), error_type, d@),
{
    if d.file < files.len() {
        CompileError::from_message(
            encoding,
            files[d.file].as_str(),
            d.line,
            d.column,
            error_type,
            d.kind,
            d.message.as_str(),
        )
    } else {
        let none = String::new();
        CompileError::from_message(
            encoding,
            none.as_str(),
            d.line,
            d.column,
            error_type,
            d.kind,
            d.message.as_str(),
        )
    }
}

impl Compiler {
    /// A compiler that has read nothing.
    pub fn new(target: CompileTarget, encoding: CompileEncoding, definitions: Definitions) -> (r:
        Compiler)
        ensures
            r@ == (CompilerModel {
                tokens: Seq::empty(),
                files: Seq::empty(),
                target,
                encoding,
                functions: definitions.functions@,
                globals: definitions.globals@,
                warn_capitals: false,
            }),
    {
        let r = Compiler {
            tokens: Vec::new(),
            files: Vec::new(),
            target,
            encoding,
            definitions,
            warn_capitals: false,
        };
        assert(tokens_view(r.tokens@) =~= Seq::empty());
        assert(names_view(r.files@) =~= Seq::empty());
        r
    }

    /// The target.
    pub fn get_target(&self) -> (r: CompileTarget)
        ensures
            r == self@.target,
    {
        self.target
    }

    /// The encoding.
    pub fn get_encoder(&self) -> (r: CompileEncoding)
        ensures
            r == self@.encoding,
    {
        self.encoding
    }

    /// Whether words that are written with capitals are warned about.
    pub fn get_capital_warnings(&self) -> (r: bool)
        ensures
            r == self@.warn_capitals,
    {
        self.warn_capitals
    }

    /// Asks for warnings about words that are written with capitals, or for
    /// none.
    pub fn set_capital_warnings(&mut self, on: bool)
        ensures
            final(self)@ == (CompilerModel { warn_capitals: on, ..old(self)@ }),
    {
        self.warn_capitals = on;
    }

    /// The top-level blocks read so far.
    pub fn get_tokens(&self) -> (r: &Vec<Token>)
        ensures
            tokens_view(r@) == self@.tokens,
    {
        &self.tokens
    }

    /// Reads the bytes of a script file into tokens.
    pub fn tokenize_script_data(&mut self, filename: &str, script: &[u8]) -> (r: Result<
        (),
        CompileError,
    >)
        requires
            script@.len() < usize::MAX,
        ensures
            match r {
                Ok(_) => reading(old(self)@, filename@, script@) == Ok::<
                    CompilerModel,
                    CompileErrorModel,
                >(final(self)@),
                Err(e) => reading(old(self)@, filename@, script@) == Err::<
                    CompilerModel,
                    CompileErrorModel,
                >(e@) && final(self)@ == old(self)@,
            },
    {
        let file: usize = self.files.len();
        match read_token_forest(self.encoding, script, file) {
            Ok(forest) => {
                let mut forest = forest;
                let ghost before = self.tokens@;
                let ghost added = forest@;
                let ghost files_before = self.files@;
                self.tokens.append(&mut forest);
                self.files.push(filename.to_owned());
                assert(self.tokens@ =~= before + added);
                assert(tokens_view(self.tokens@) =~= tokens_view(before) + tokens_view(added));
                assert(names_view(self.files@) =~= names_view(files_before).push(filename@));
                Ok(())
            },
            Err(d) => Err(
                CompileError::from_message(
                    self.encoding,
                    filename,
                    d.line,
                    d.column,
                    CompileErrorType::Error,
                    d.kind,
                    d.message.as_str(),
                ),
            ),
        }
    }

    /// Reads the bytes of a script file. The file's top-level blocks and
    /// its name are added to what the compiler has read; where the bytes
    /// cannot be read, nothing is added.
    pub fn read_script_data(&mut self, filename: &str, script: &[u8]) -> (r: Result<
        (),
        CompileError,
    >)
        requires
            script@.len() < usize::MAX,
        ensures
            match r {
                Ok(_) => reading(old(self)@, filename@, script@) == Ok::<
                    CompilerModel,
                    CompileErrorModel,
                >(final(self)@),
                Err(e) => reading(old(self)@, filename@, script@) == Err::<
                    CompilerModel,
                    CompileErrorModel,
                >(e@) && final(self)@ == old(self)@,
            },
    {
        self.tokenize_script_data(filename, script)
    }

    fn encode_files(&self) -> (r: Vec<EncodedText>)
        ensures
            texts_view(r@) == file_table(self@),
    {
        let mut out: Vec<EncodedText> = Vec::new();
        let mut i: usize = 0;
        while i < self.files.len()
            invariant
                i <= self.files@.len(),
                out@.len() == i,
                forall|k: int| 0 <= k < i ==> out@[k]@ == encoded_text(self.encoding, self.files@[k]@),
            decreases self.files@.len() - i,
        {
            out.push(encode_text(self.encoding, self.files[i].as_str()));
            i += 1;
        }
        assert(texts_view(out@) =~= file_table(self@));
        out
    }

    fn report_all(&self, error_type: CompileErrorType, diagnostics: &Vec<Diagnostic>) -> (r: Vec<
        CompileError,
    >)
        ensures
            compile_errors_view(r@) == reported_all(
                self@,
                error_type,
                diagnostics_view(diagnostics@),
            ),
    {
        let mut out: Vec<CompileError> = Vec::new();
        let mut i: usize = 0;
        while i < diagnostics.len()
            invariant
                i <= diagnostics@.len(),
                out@.len() == i,
                forall|k: int| 0 <= k < i ==> out@[k]@ == reported(
                    self.encoding,
                    names_view(self.files@),
                    error_type,
                    diagnostics@[k]@,
                ),
            decreases diagnostics@.len() - i,
        {
            out.push(report(self.encoding, &self.files, error_type, &diagnostics[i]));
            i += 1;
        }
        assert(compile_errors_view(out@) =~= reported_all(
            self@,
            error_type,
            diagnostics_view(diagnostics@),
        ));
        out
    }

    /// Compiles all that was read. The tokens are used up either way; the
    /// file table is handed over with the result.
    pub fn digest_tokens(&mut self) -> (r: Result<CompiledScriptData, CompileError>)
        ensures
            match r {
                Ok(data) => compilation(old(self)@) == Ok::<
                    CompiledScriptDataModel,
                    CompileErrorModel,
                >(data@) && data@.nodes.len() <= usize::MAX && final(self)@ == (CompilerModel {
                    tokens: Seq::empty(),
                    files: Seq::empty(),
                    ..old(self)@
                }),
                Err(e) => compilation(old(self)@) == Err::<
                    CompiledScriptDataModel,
                    CompileErrorModel,
                >(e@) && final(self)@ == (CompilerModel { tokens: Seq::empty(), ..old(self)@ }),
            },
    {
        let mut tokens: Vec<Token> = Vec::new();
        core::mem::swap(&mut self.tokens, &mut tokens);
        assert(tokens_view(self.tokens@) =~= Seq::empty());
        match digest_tokens(&tokens, self.target, &self.definitions) {
            Err(d) => Err(report(self.encoding, &self.files, CompileErrorType::Error, &d)),
            Ok(x) => {
                let mut all: Vec<Diagnostic> = if self.warn_capitals {
                    match classify_tokens(&tokens, self.target) {
                        Ok(c) => find_all_capitals(&c.scripts, &c.globals),
                        Err(_) => Vec::new(),
                    }
                } else {
                    Vec::new()
                };
                let ghost first = diagnostics_view(all@);
                let ghost first_list = all@;
                assert(first == capital_warnings(old(self)@)) by {
                    assert(diagnostics_view(Seq::<Diagnostic>::empty()) =~= Seq::<
                        DiagnosticModel,
                    >::empty());
                }
                let mut later = x.warnings;
                let ghost later_list = later@;
                all.append(&mut later);
                assert(diagnostics_view(all@) =~= first + diagnostics_view(later_list)) by {
                    assert(all@ =~= first_list + later_list);
                }
                let emitted = emit(&x.scripts, &x.globals, self.encoding);
                let files = self.encode_files();
                let warnings = self.report_all(CompileErrorType::Warning, &all);
                let mut none: Vec<String> = Vec::new();
                core::mem::swap(&mut self.files, &mut none);
                assert(names_view(self.files@) =~= Seq::empty());
                let count: usize = emitted.nodes.len();
                assert(compiled_nodes_view(emitted.nodes@).len() == count);
                Ok(
                    CompiledScriptData {
                        scripts: emitted.scripts,
                        globals: emitted.globals,
                        files,
                        warnings,
                        nodes: emitted.nodes,
                    },
                )
            },
        }
    }

    /// Compiles all that was read: the scripts, the globals and the node
    /// array, with the file table and the warnings; or the first error.
    pub fn compile_script_data(&mut self) -> (r: Result<CompiledScriptData, CompileError>)
        ensures
            match r {
                Ok(data) => compilation(old(self)@) == Ok::<
                    CompiledScriptDataModel,
                    CompileErrorModel,
                >(data@) && data@.nodes.len() <= usize::MAX && final(self)@ == (CompilerModel {
                    tokens: Seq::empty(),
                    files: Seq::empty(),
                    ..old(self)@
                }),
                Err(e) => compilation(old(self)@) == Err::<
                    CompiledScriptDataModel,
                    CompileErrorModel,
                >(e@) && final(self)@ == (CompilerModel { tokens: Seq::empty(), ..old(self)@ }),
            },
    {
        self.digest_tokens()
    }
}

} // verus!
