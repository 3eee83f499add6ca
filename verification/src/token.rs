//! Tokens and the reader that turns the bytes of a script into a forest of
//! them.
//!
//! A script is a sequence of blocks in parentheses. Inside a block stand
//! words, quoted strings and further blocks. A comment runs from `;` to the
//! end of the line, or from `;*` to `*;`.

use crate::error::Diagnostic;
use crate::error::DiagnosticModel;
use crate::error::ErrorKind;
use crate::text::concat2;
use crate::text::concat3;
use crate::text::str_equal;
use crate::types::CompileEncoding;
use vstd::prelude::*;
use vstd::slice::slice_subrange;
use vstd::string::*;

verus! {

/// A word, a quoted string or a block, with the place where it begins.
#[derive(Debug)]
pub struct Token {
    /// The line, counted from one.
    pub line: usize,
    /// The column, counted from one.
    pub column: usize,
    /// The position of the file in the compiler's file table.
    pub file: usize,
    /// The text of a word or string; `(` for a block.
    pub string: String,
    /// What a block holds; `None` for a word or string.
    pub children: Option<Vec<Token>>,
}

/// The value of a `Token`.
pub struct TokenModel {
    pub line: usize,
    pub column: usize,
    pub file: usize,
    pub string: Seq<char>,
    pub children: Option<Seq<TokenModel>>,
}

/// The values of a list of tokens.
pub open spec fn tokens_view(s: Seq<Token>) -> Seq<TokenModel>
    decreases s,
{
    Seq::new(
        s.len(),
        |i: int|
            if 0 <= i < s.len() {
                s[i].view()
            } else {
                arbitrary()
            },
    )
}

impl View for Token {
    type V = TokenModel;

    open spec fn view(&self) -> TokenModel
        decreases self,
    {
        TokenModel {
            line: self.line,
            column: self.column,
            file: self.file,
            string: self.string@,
            children: match self.children {
                Some(v) => Some(tokens_view(v@)),
                None => None,
            },
        }
    }
}

/// A word or string at a place.
pub open spec fn leaf(line: usize, column: usize, file: usize, string: Seq<char>) -> TokenModel {
    TokenModel { line, column, file, string, children: None }
}

/// A block at a place.
pub open spec fn block(
    line: usize,
    column: usize,
    file: usize,
    string: Seq<char>,
    children: Seq<TokenModel>,
) -> TokenModel {
    TokenModel { line, column, file, string, children: Some(children) }
}

impl Token {
    /// A copy with the same value.
    pub fn duplicate(&self) -> (r: Token)
        ensures
            r@ == self@,
        decreases self,
    {
        let children = match &self.children {
            Some(v) => {
                let copies = duplicate_tokens(v, 0);
                assert(tokens_view(v@).subrange(0, v@.len() as int) =~= tokens_view(v@));
                Some(copies)
            },
            None => None,
        };
        Token {
            line: self.line,
            column: self.column,
            file: self.file,
            string: self.string.clone(),
            children,
        }
    }

    /// Whether the token is a block.
    pub fn is_block(&self) -> (r: bool)
        ensures
            r == self@.children.is_some(),
    {
        self.children.is_some()
    }
}

/// Copies of the tokens from a position on.
pub fn duplicate_tokens(v: &Vec<Token>, start: usize) -> (r: Vec<Token>)
    ensures
        tokens_view(r@) == tokens_view(v@).subrange(
            if start <= v.len() {
                start as int
            } else {
                v.len() as int
            },
            v.len() as int,
        ),
    decreases v,
{
    let mut out: Vec<Token> = Vec::new();
    let first: usize = if start <= v.len() {
        start
    } else {
        v.len()
    };
    let mut i: usize = first;
    while i < v.len()
        invariant
            first <= i <= v.len(),
            out.len() == i - first,
            forall|j: int| 0 <= j < out.len() ==> out[j]@ == v[first + j]@,
        decreases v.len() - i,
    {
        out.push(v[i].duplicate());
        i += 1;
    }
    assert(tokens_view(out@) =~= tokens_view(v@).subrange(
        if start <= v.len() {
            start as int
        } else {
            v.len() as int
        },
        v.len() as int,
    ));
    out
}

/// What the reader is inside of.
#[derive(Copy, Clone, PartialEq, Eq, Structural, Debug)]
pub enum ReadMode {
    /// Between tokens.
    Whitespace,
    /// A token; `true` for a quoted string, which ends at the next quote.
    Token(bool),
    /// A comment; `true` for one that ends at `*;`, `false` for one that
    /// ends with the line.
    Comment(bool),
}

/// Where the reader is and what it has begun.
#[derive(Copy, Clone, PartialEq, Eq, Structural, Debug)]
pub struct ReadState {
    pub line: usize,
    pub column: usize,
    pub token_line: usize,
    pub token_column: usize,
    pub token_offset: usize,
    pub mode: ReadMode,
}

/// What one byte does to the reader: its next state, the tokens that the
/// byte completes, and whether reading ends here.
pub struct ReadStep {
    pub state: ReadState,
    pub tokens: Seq<TokenModel>,
    pub stop: bool,
}

/// Whether a byte is white space: tab to carriage return, space, next line
/// and no-break space.
pub open spec fn is_space(b: u8) -> bool {
    (9 <= b <= 13) || b == 32 || b == 0x85 || b == 0xA0
}

/// Whether a byte ends a word.
pub open spec fn ends_word(b: u8) -> bool {
    b == 40 || b == 41 || b == 59 || is_space(b)
}

/// The message for bytes without a reading.
pub open spec fn decode_failure_message(fault: Seq<char>) -> Seq<char> {
    "failed to decode token - "@ + fault
}

/// A diagnostic of the reader.
pub open spec fn read_fault(
    kind: ErrorKind,
    message: Seq<char>,
    file: usize,
    line: usize,
    column: usize,
) -> DiagnosticModel {
    DiagnosticModel { kind, message, file, line, column }
}

/// The token that ends before position `i`, or the diagnostic for its bytes.
pub open spec fn finished_token(
    encoding: CompileEncoding,
    bytes: Seq<u8>,
    file: usize,
    i: int,
    s: ReadState,
    column: usize,
) -> Result<TokenModel, DiagnosticModel> {
    let from = if s.mode == ReadMode::Token(true) {
        s.token_offset + 1
    } else {
        s.token_offset as int
    };
    match encoding.decoded(bytes.subrange(from, i)) {
        Ok(text) => Ok(leaf(s.token_line, s.token_column, file, text)),
        Err(fault) => Err(
            read_fault(
                ErrorKind::DecodeFailure,
                decode_failure_message(fault),
                file,
                s.line,
                column,
            ),
        ),
    }
}

/// What the byte at position `i` does to a reader in state `s`.
pub open spec fn read_step(
    encoding: CompileEncoding,
    bytes: Seq<u8>,
    file: usize,
    i: int,
    s: ReadState,
) -> Result<ReadStep, DiagnosticModel> {
    let b = bytes[i];
    let column = (s.column + 1) as usize;
    let here = ReadState { column, ..s };
    if b == 0 {
        if i + 1 == bytes.len() {
            Ok(ReadStep { state: here, tokens: Seq::empty(), stop: true })
        } else {
            Err(
                read_fault(
                    ErrorKind::UnexpectedNull,
                    "unexpected null terminator"@,
                    file,
                    s.line,
                    column,
                ),
            )
        }
    } else if ends_word(b) {
        let closes = s.mode == ReadMode::Token(false);
        let word = finished_token(encoding, bytes, file, i, s, column);
        if closes && word is Err {
            Err(word->Err_0)
        } else {
            let before: Seq<TokenModel> = if closes {
                seq![word->Ok_0]
            } else {
                Seq::empty()
            };
            let mode = if closes {
                ReadMode::Whitespace
            } else {
                s.mode
            };
            if b == 40 || b == 41 {
                let paren = leaf(
                    s.line,
                    column,
                    file,
                    if b == 40 {
                        "("@
                    } else {
                        ")"@
                    },
                );
                Ok(
                    ReadStep {
                        state: ReadState { mode, ..here },
                        tokens: if mode == ReadMode::Whitespace {
                            before.push(paren)
                        } else {
                            before
                        },
                        stop: false,
                    },
                )
            } else if b == 59 {
                let next = if mode == ReadMode::Whitespace {
                    ReadMode::Comment(i + 1 < bytes.len() && bytes[i + 1] == 42)
                } else if mode == ReadMode::Comment(true) && i >= 1 && bytes[i - 1] == 42 {
                    ReadMode::Whitespace
                } else {
                    mode
                };
                Ok(ReadStep { state: ReadState { mode: next, ..here }, tokens: before, stop: false })
            } else if b == 10 {
                Ok(
                    ReadStep {
                        state: ReadState {
                            line: (s.line + 1) as usize,
                            column: 0,
                            mode: if mode == ReadMode::Comment(false) {
                                ReadMode::Whitespace
                            } else {
                                mode
                            },
                            ..s
                        },
                        tokens: before,
                        stop: false,
                    },
                )
            } else {
                Ok(ReadStep { state: ReadState { mode, ..here }, tokens: before, stop: false })
            }
        }
    } else if s.mode == ReadMode::Whitespace {
        Ok(
            ReadStep {
                state: ReadState {
                    mode: ReadMode::Token(b == 34),
                    token_line: s.line,
                    token_column: column,
                    token_offset: i as usize,
                    ..here
                },
                tokens: Seq::empty(),
                stop: false,
            },
        )
    } else if s.mode == ReadMode::Token(true) && b == 34 {
        match finished_token(encoding, bytes, file, i, s, column) {
            Ok(t) => Ok(
                ReadStep {
                    state: ReadState { mode: ReadMode::Whitespace, ..here },
                    tokens: seq![t],
                    stop: false,
                },
            ),
            Err(d) => Err(d),
        }
    } else {
        Ok(ReadStep { state: here, tokens: Seq::empty(), stop: false })
    }
}

/// The state of a reader before the first byte.
pub open spec fn initial_state() -> ReadState {
    ReadState {
        line: 1,
        column: 0,
        token_line: 1,
        token_column: 1,
        token_offset: 0,
        mode: ReadMode::Whitespace,
    }
}

/// What the reader ends with.
pub struct ReadResult {
    pub tokens: Seq<TokenModel>,
    pub line: usize,
    pub column: usize,
}

/// The words, strings and parentheses of the bytes from position `i` on,
/// read by a reader in state `s` that has `tokens` already, with the place
/// where reading ends; or the first diagnostic.
pub open spec fn read_from(
    encoding: CompileEncoding,
    bytes: Seq<u8>,
    file: usize,
    i: int,
    s: ReadState,
    tokens: Seq<TokenModel>,
) -> Result<ReadResult, DiagnosticModel>
    decreases bytes.len() - i,
{
    if i < 0 || i >= bytes.len() {
        if s.mode is Token {
            Err(
                read_fault(
                    ErrorKind::UnterminatedToken,
                    "unterminated token"@,
                    file,
                    s.line,
                    s.column,
                ),
            )
        } else {
            Ok(ReadResult { tokens, line: s.line, column: s.column })
        }
    } else {
        match read_step(encoding, bytes, file, i, s) {
            Err(d) => Err(d),
            Ok(step) => if step.stop {
                read_from(
                    encoding,
                    bytes,
                    file,
                    bytes.len() as int,
                    step.state,
                    tokens + step.tokens,
                )
            } else {
                read_from(encoding, bytes, file, i + 1, step.state, tokens + step.tokens)
            },
        }
    }
}

/// The words, strings and parentheses of a script, in order.
pub open spec fn read_flat(encoding: CompileEncoding, bytes: Seq<u8>, file: usize) -> Result<
    ReadResult,
    DiagnosticModel,
> {
    read_from(encoding, bytes, file, 0, initial_state(), Seq::empty())
}

/// What reading a block gives: the block and the position after its closing
/// parenthesis.
pub struct BlockResult {
    pub token: TokenModel,
    pub next: int,
}

/// The block whose opening parenthesis is `open` and whose content begins
/// at position `pos` of the flat tokens, given the children read so far.
pub open spec fn read_block(
    flat: Seq<TokenModel>,
    pos: int,
    open: TokenModel,
    children: Seq<TokenModel>,
) -> Result<BlockResult, DiagnosticModel>
    decreases flat.len() - pos,
{
    if pos < 0 || pos >= flat.len() {
        Err(
            read_fault(
                ErrorKind::UnterminatedBlock,
                "unterminated block"@,
                open.file,
                open.line,
                open.column,
            ),
        )
    } else if flat[pos].string == "("@ {
        match read_block(flat, pos + 1, flat[pos], Seq::empty()) {
            Err(d) => Err(d),
            Ok(inner) => if inner.next <= pos || inner.next > flat.len() {
                Err(unclosed(open))
            } else {
                read_block(flat, inner.next, open, children.push(inner.token))
            },
        }
    } else if flat[pos].string == ")"@ {
        if children.len() == 0 {
            Err(
                read_fault(
                    ErrorKind::EmptyBlock,
                    "empty block"@,
                    open.file,
                    open.line,
                    open.column,
                ),
            )
        } else {
            Ok(
                BlockResult {
                    token: block(open.line, open.column, open.file, open.string, children),
                    next: pos + 1,
                },
            )
        }
    } else {
        read_block(flat, pos + 1, open, children.push(flat[pos]))
    }
}

/// The diagnostic for a block that is never closed.
pub open spec fn unclosed(open: TokenModel) -> DiagnosticModel {
    read_fault(
        ErrorKind::UnterminatedBlock,
        "unterminated block"@,
        open.file,
        open.line,
        open.column,
    )
}

/// The message for a word at the top level.
pub open spec fn expected_parenthesis_message(found: Seq<char>) -> Seq<char> {
    "expected left parenthesis, got "@ + found + " instead"@
}

/// The top-level blocks of the flat tokens from position `pos` on, after
/// the blocks read so far. `line` and `column` are where reading ended.
pub open spec fn read_forest(
    flat: Seq<TokenModel>,
    pos: int,
    file: usize,
    line: usize,
    column: usize,
    forest: Seq<TokenModel>,
) -> Result<Seq<TokenModel>, DiagnosticModel>
    decreases flat.len() - pos,
{
    if pos < 0 || pos >= flat.len() {
        Ok(forest)
    } else if flat[pos].string == "("@ {
        match read_block(flat, pos + 1, flat[pos], Seq::empty()) {
            Err(d) => Err(d),
            Ok(b) => if b.next <= pos || b.next > flat.len() {
                Err(unclosed(flat[pos]))
            } else {
                read_forest(flat, b.next, file, line, column, forest.push(b.token))
            },
        }
    } else {
        Err(
            read_fault(
                ErrorKind::ExpectedLeftParenthesis,
                expected_parenthesis_message(flat[pos].string),
                file,
                line,
                column,
            ),
        )
    }
}

/// The forest of blocks that the bytes of a script hold, or the first
/// diagnostic.
pub open spec fn token_forest(encoding: CompileEncoding, bytes: Seq<u8>, file: usize) -> Result<
    Seq<TokenModel>,
    DiagnosticModel,
> {
    match read_flat(encoding, bytes, file) {
        Err(d) => Err(d),
        Ok(r) => read_forest(r.tokens, 0, file, r.line, r.column, Seq::empty()),
    }
}

/// Every block that [`read_block`] returns ends after the place where its
/// content began.
pub proof fn lemma_read_block_advances(
    flat: Seq<TokenModel>,
    pos: int,
    open: TokenModel,
    children: Seq<TokenModel>,
)
    requires
        0 <= pos,
    ensures
        read_block(flat, pos, open, children) is Ok ==> pos < read_block(
            flat,
            pos,
            open,
            children,
        )->Ok_0.next <= flat.len(),
    decreases flat.len() - pos,
{
    if pos >= flat.len() {
    } else if flat[pos].string == "("@ {
        lemma_read_block_advances(flat, pos + 1, flat[pos], Seq::empty());
        match read_block(flat, pos + 1, flat[pos], Seq::empty()) {
            Err(d) => {},
            Ok(inner) => {
                lemma_read_block_advances(flat, inner.next, open, children.push(inner.token));
            },
        }
    } else if flat[pos].string == ")"@ {
    } else {
        lemma_read_block_advances(flat, pos + 1, open, children.push(flat[pos]));
    }
}

fn byte_is_space(b: u8) -> (r: bool)
    ensures
        r == is_space(b),
{
    (9 <= b && b <= 13) || b == 32 || b == 0x85 || b == 0xA0
}

fn make_fault(kind: ErrorKind, message: String, file: usize, line: usize, column: usize) -> (r:
    Diagnostic)
    ensures
        r@ == read_fault(kind, message@, file, line, column),
{
    Diagnostic { kind, message, file, line, column }
}

fn finish_token(
    encoding: CompileEncoding,
    script: &[u8],
    file: usize,
    i: usize,
    s: ReadState,
    column: usize,
) -> (r: Result<Token, Diagnostic>)
    requires
        i <= script@.len(),
        s.mode is Token,
        s.token_offset < i,
    ensures
        match r {
            Ok(t) => finished_token(encoding, script@, file, i as int, s, column) == Ok::<
                TokenModel,
                DiagnosticModel,
            >(t@),
            Err(d) => finished_token(encoding, script@, file, i as int, s, column) == Err::<
                TokenModel,
                DiagnosticModel,
            >(d@),
        },
{
    let from: usize = match s.mode {
        ReadMode::Token(true) => s.token_offset + 1,
        _ => s.token_offset,
    };
    match encoding.decode_from_bytes(slice_subrange(script, from, i)) {
        Ok(text) => Ok(
            Token {
                line: s.token_line,
                column: s.token_column,
                file,
                string: text,
                children: None,
            },
        ),
        Err(fault) => {
            let message = concat2("failed to decode token - ", fault.as_str());
            Err(make_fault(ErrorKind::DecodeFailure, message, file, s.line, column))
        },
    }
}

/// What one byte does to the reader.
struct Step {
    state: ReadState,
    tokens: Vec<Token>,
    stop: bool,
}

fn step(encoding: CompileEncoding, script: &[u8], file: usize, i: usize, s: ReadState) -> (r:
    Result<Step, Diagnostic>)
    requires
        i < script@.len(),
        script@.len() < usize::MAX,
        s.column <= i,
        s.line <= i + 1,
        s.mode is Token ==> s.token_offset < i,
    ensures
        match r {
            Ok(x) => read_step(encoding, script@, file, i as int, s) == Ok::<
                ReadStep,
                DiagnosticModel,
            >(ReadStep { state: x.state, tokens: tokens_view(x.tokens@), stop: x.stop }),
            Err(d) => read_step(encoding, script@, file, i as int, s) == Err::<
                ReadStep,
                DiagnosticModel,
            >(d@),
        },
        r is Ok ==> r->Ok_0.state.column <= i + 1 && r->Ok_0.state.line <= i + 2 && (
        r->Ok_0.state.mode is Token ==> r->Ok_0.state.token_offset <= i),
{
    let b: u8 = script[i];
    let column: usize = s.column + 1;
    let here = ReadState {
        line: s.line,
        column,
        token_line: s.token_line,
        token_column: s.token_column,
        token_offset: s.token_offset,
        mode: s.mode,
    };
    let mut tokens: Vec<Token> = Vec::new();
    assert(tokens_view(tokens@) =~= Seq::empty());
    if b == 0 {
        if i + 1 == script.len() {
            return Ok(Step { state: here, tokens, stop: true });
        } else {
            return Err(
                make_fault(
                    ErrorKind::UnexpectedNull,
                    "unexpected null terminator".to_owned(),
                    file,
                    s.line,
                    column,
                ),
            );
        }
    }
    let space: bool = byte_is_space(b);
    if b == 40 || b == 41 || b == 59 || space {
        let mut mode = s.mode;
        if s.mode == ReadMode::Token(false) {
            let word = finish_token(encoding, script, file, i, s, column)?;
            tokens.push(word);
            mode = ReadMode::Whitespace;
            assert(tokens_view(tokens@) =~= seq![word@]);
        }
        let ghost before = tokens_view(tokens@);
        if b == 40 || b == 41 {
            if mode == ReadMode::Whitespace {
                let paren = Token {
                    line: s.line,
                    column,
                    file,
                    string: if b == 40 {
                        "(".to_owned()
                    } else {
                        ")".to_owned()
                    },
                    children: None,
                };
                tokens.push(paren);
                assert(tokens_view(tokens@) =~= before.push(paren@));
            }
            return Ok(Step { state: ReadState { mode, ..here }, tokens, stop: false });
        } else if b == 59 {
            let next = if mode == ReadMode::Whitespace {
                ReadMode::Comment(i + 1 < script.len() && script[i + 1] == 42)
            } else if mode == ReadMode::Comment(true) && i >= 1 && script[i - 1] == 42 {
                ReadMode::Whitespace
            } else {
                mode
            };
            return Ok(Step { state: ReadState { mode: next, ..here }, tokens, stop: false });
        } else if b == 10 {
            return Ok(
                Step {
                    state: ReadState {
                        line: s.line + 1,
                        column: 0,
                        mode: if mode == ReadMode::Comment(false) {
                            ReadMode::Whitespace
                        } else {
                            mode
                        },
                        ..s
                    },
                    tokens,
                    stop: false,
                },
            );
        } else {
            return Ok(Step { state: ReadState { mode, ..here }, tokens, stop: false });
        }
    }
    if s.mode == ReadMode::Whitespace {
        Ok(
            Step {
                state: ReadState {
                    mode: ReadMode::Token(b == 34),
                    token_line: s.line,
                    token_column: column,
                    token_offset: i,
                    ..here
                },
                tokens,
                stop: false,
            },
        )
    } else if s.mode == ReadMode::Token(true) && b == 34 {
        let t = finish_token(encoding, script, file, i, s, column)?;
        tokens.push(t);
        assert(tokens_view(tokens@) =~= seq![t@]);
        Ok(Step { state: ReadState { mode: ReadMode::Whitespace, ..here }, tokens, stop: false })
    } else {
        Ok(Step { state: here, tokens, stop: false })
    }
}

/// What the reader ends with.
pub struct FlatTokens {
    pub tokens: Vec<Token>,
    pub line: usize,
    pub column: usize,
}

/// Reads the words, strings and parentheses of a script.
pub fn read_tokens(encoding: CompileEncoding, script: &[u8], file: usize) -> (r: Result<
    FlatTokens,
    Diagnostic,
>)
    requires
        script@.len() < usize::MAX,
    ensures
        match r {
            Ok(x) => read_flat(encoding, script@, file) == Ok::<ReadResult, DiagnosticModel>(
                ReadResult { tokens: tokens_view(x.tokens@), line: x.line, column: x.column },
            ),
            Err(d) => read_flat(encoding, script@, file) == Err::<ReadResult, DiagnosticModel>(d@),
        },
{
    let mut tokens: Vec<Token> = Vec::new();
    let mut s = ReadState {
        line: 1,
        column: 0,
        token_line: 1,
        token_column: 1,
        token_offset: 0,
        mode: ReadMode::Whitespace,
    };
    let mut i: usize = 0;
    assert(tokens_view(tokens@) =~= Seq::empty());
    while i < script.len()
        invariant
            i <= script@.len(),
            script@.len() < usize::MAX,
            s.column <= i,
            s.line <= i + 1,
            s.mode is Token ==> s.token_offset < i,
            read_flat(encoding, script@, file) == read_from(
                encoding,
                script@,
                file,
                i as int,
                s,
                tokens_view(tokens@),
            ),
        decreases script@.len() - i,
    {
        let ghost before = tokens_view(tokens@);
        let mut x = step(encoding, script, file, i, s)?;
        let ghost added = tokens_view(x.tokens@);
        let ghost old_tokens = tokens@;
        let ghost new_tokens = x.tokens@;
        tokens.append(&mut x.tokens);
        assert(tokens_view(tokens@) =~= before + added) by {
            assert(tokens@ =~= old_tokens + new_tokens);
        }
        s = x.state;
        if x.stop {
            i = script.len();
        } else {
            i += 1;
        }
    }
    match s.mode {
        ReadMode::Token(_) => Err(
            make_fault(
                ErrorKind::UnterminatedToken,
                "unterminated token".to_owned(),
                file,
                s.line,
                s.column,
            ),
        ),
        _ => Ok(FlatTokens { tokens, line: s.line, column: s.column }),
    }
}

/// What reading a block gives.
struct Block {
    token: Token,
    next: usize,
}

fn build_block(flat: &Vec<Token>, start: usize, open: &Token) -> (r: Result<Block, Diagnostic>)
    requires
        start <= flat@.len(),
    ensures
        match r {
            Ok(b) => read_block(tokens_view(flat@), start as int, open@, Seq::empty()) == Ok::<
                BlockResult,
                DiagnosticModel,
            >(BlockResult { token: b.token@, next: b.next as int }) && start < b.next
                <= flat@.len(),
            Err(d) => read_block(tokens_view(flat@), start as int, open@, Seq::empty()) == Err::<
                BlockResult,
                DiagnosticModel,
            >(d@),
        },
    decreases flat@.len() - start,
{
    let mut children: Vec<Token> = Vec::new();
    let mut pos: usize = start;
    assert(tokens_view(children@) =~= Seq::empty());
    loop
        invariant
            start <= pos <= flat@.len(),
            read_block(tokens_view(flat@), start as int, open@, Seq::empty()) == read_block(
                tokens_view(flat@),
                pos as int,
                open@,
                tokens_view(children@),
            ),
        decreases flat@.len() - pos,
    {
        if pos >= flat.len() {
            return Err(
                make_fault(
                    ErrorKind::UnterminatedBlock,
                    "unterminated block".to_owned(),
                    open.file,
                    open.line,
                    open.column,
                ),
            );
        }
        let t = &flat[pos];
        assert(tokens_view(flat@)[pos as int] == t@);
        let ghost before = tokens_view(children@);
        if str_equal(t.string.as_str(), "(") {
            let inner = build_block(flat, pos + 1, t)?;
            children.push(inner.token);
            assert(tokens_view(children@) =~= before.push(inner.token@));
            pos = inner.next;
        } else if str_equal(t.string.as_str(), ")") {
            if children.len() == 0 {
                return Err(
                    make_fault(
                        ErrorKind::EmptyBlock,
                        "empty block".to_owned(),
                        open.file,
                        open.line,
                        open.column,
                    ),
                );
            }
            return Ok(
                Block {
                    token: Token {
                        line: open.line,
                        column: open.column,
                        file: open.file,
                        string: open.string.clone(),
                        children: Some(children),
                    },
                    next: pos + 1,
                },
            );
        } else {
            children.push(t.duplicate());
            assert(tokens_view(children@) =~= before.push(t@));
            pos += 1;
        }
    }
}

/// Reads the forest of blocks that the bytes of a script hold.
pub fn read_token_forest(encoding: CompileEncoding, script: &[u8], file: usize) -> (r: Result<
    Vec<Token>,
    Diagnostic,
>)
    requires
        script@.len() < usize::MAX,
    ensures
        match r {
            Ok(forest) => token_forest(encoding, script@, file) == Ok::<
                Seq<TokenModel>,
                DiagnosticModel,
            >(tokens_view(forest@)),
            Err(d) => token_forest(encoding, script@, file) == Err::<
                Seq<TokenModel>,
                DiagnosticModel,
            >(d@),
        },
{
    let flat = read_tokens(encoding, script, file)?;
    let mut forest: Vec<Token> = Vec::new();
    let mut pos: usize = 0;
    assert(tokens_view(forest@) =~= Seq::empty());
    while pos < flat.tokens.len()
        invariant
            pos <= flat.tokens@.len(),
            token_forest(encoding, script@, file) == read_forest(
                tokens_view(flat.tokens@),
                pos as int,
                file,
                flat.line,
                flat.column,
                tokens_view(forest@),
            ),
        decreases flat.tokens@.len() - pos,
    {
        let t = &flat.tokens[pos];
        assert(tokens_view(flat.tokens@)[pos as int] == t@);
        let ghost before = tokens_view(forest@);
        if str_equal(t.string.as_str(), "(") {
            let b = build_block(&flat.tokens, pos + 1, t)?;
            forest.push(b.token);
            assert(tokens_view(forest@) =~= before.push(b.token@));
            pos = b.next;
        } else {
            let message = concat3("expected left parenthesis, got ", t.string.as_str(), " instead");
            return Err(
                make_fault(
                    ErrorKind::ExpectedLeftParenthesis,
                    message,
                    file,
                    flat.line,
                    flat.column,
                ),
            );
        }
    }
    Ok(forest)
}

} // verus!
