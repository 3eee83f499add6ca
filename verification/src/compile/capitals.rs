//! Warnings about capitals. Names are read without regard to case, so a
//! word of an expression that is written with capitals is read in lower
//! case. A compiler can be asked to say so for every such word.

use crate::compile::analyze::lowercase_token;
use crate::compile::classify::Classification;
use crate::compile::script::globals_view;
use crate::compile::script::scripts_view;
use crate::compile::script::Global;
use crate::compile::script::GlobalModel;
use crate::compile::script::Script;
use crate::compile::script::ScriptModel;
use crate::error::diagnostics_view;
use crate::error::Diagnostic;
use crate::error::DiagnosticModel;
use crate::error::ErrorKind;
use crate::text::concat3;
use crate::text::lowercase;
use crate::text::str_equal;
use crate::token::tokens_view;
use crate::token::Token;
use crate::token::TokenModel;
use vstd::prelude::*;

verus! {

/// The message for a word that was put in lower case.
pub open spec fn capitals_message(text: Seq<char>) -> Seq<char> {
    "token '"@ + text + "' contains uppercase characters and was made lowercase"@
}

/// The warning for a word, if it is written with capitals.
pub open spec fn word_warnings(t: TokenModel) -> Seq<DiagnosticModel> {
    if lowercase(t.string) != t.string {
        seq![
            DiagnosticModel {
                kind: ErrorKind::CaseChanged,
                message: capitals_message(t.string),
                file: t.file,
                line: t.line,
                column: t.column,
            },
        ]
    } else {
        Seq::empty()
    }
}

/// The warnings for an expression: for a word, the warning for the word;
/// for a call, the warnings for its arguments in order, the name of the
/// function left aside; for a `cond`, the warnings for the conditions and
/// expressions of its arms in order.
pub open spec fn expression_warnings(t: TokenModel) -> Seq<DiagnosticModel>
    decreases t, 0nat,
{
    match t.children {
        None => word_warnings(t),
        Some(c) => if c.len() > 0 && lowercase(c[0].string) == "cond"@ {
            arm_warnings(c, 1, c.len() as int)
        } else {
            argument_warnings(c, 1, c.len() as int)
        },
    }
}

/// The warnings for the expressions from position `start` to position
/// `end` of a list, in order.
pub open spec fn argument_warnings(c: Seq<TokenModel>, start: int, end: int) -> Seq<
    DiagnosticModel,
>
    decreases c, end,
{
    if start < 0 || end <= start || end > c.len() {
        Seq::empty()
    } else {
        argument_warnings(c, start, end - 1) + expression_warnings(c[end - 1])
    }
}

/// The warnings for the arms of a `cond` from position `start` to
/// position `end` of a list, in order.
pub open spec fn arm_warnings(c: Seq<TokenModel>, start: int, end: int) -> Seq<DiagnosticModel>
    decreases c, end,
{
    if start < 0 || end <= start || end > c.len() {
        Seq::empty()
    } else {
        arm_warnings(c, start, end - 1) + match c[end - 1].children {
            Some(a) => argument_warnings(a, 0, a.len() as int),
            None => Seq::empty(),
        }
    }
}

/// The warnings for the expressions of a definition, which begin at a
/// position of its block.
pub open spec fn body_warnings(token: TokenModel, offset: int) -> Seq<DiagnosticModel> {
    match token.children {
        Some(c) => argument_warnings(c, offset, c.len() as int),
        None => Seq::empty(),
    }
}

/// The warnings for the initializers of the first `end` globals.
pub open spec fn global_capitals(globals: Seq<GlobalModel>, end: int) -> Seq<DiagnosticModel>
    decreases end,
{
    if end <= 0 || end > globals.len() {
        Seq::empty()
    } else {
        global_capitals(globals, end - 1) + body_warnings(globals[end - 1].original_token, 3)
    }
}

/// The warnings for the bodies of the first `end` scripts.
pub open spec fn script_capitals(scripts: Seq<ScriptModel>, end: int) -> Seq<DiagnosticModel>
    decreases end,
{
    if end <= 0 || end > scripts.len() {
        Seq::empty()
    } else {
        script_capitals(scripts, end - 1) + body_warnings(
            scripts[end - 1].original_token,
            scripts[end - 1].script_type.body_offset() as int,
        )
    }
}

/// The warnings about capitals for the definitions of a file: those for
/// the globals, then those for the scripts, each in the order of the
/// file.
pub open spec fn capitals(d: Classification) -> Seq<DiagnosticModel> {
    global_capitals(d.globals, d.globals.len() as int) + script_capitals(
        d.scripts,
        d.scripts.len() as int,
    )
}

fn warn_word(t: &Token, warnings: &mut Vec<Diagnostic>)
    ensures
        diagnostics_view(final(warnings)@) == diagnostics_view(old(warnings)@) + word_warnings(t@),
{
    let ghost before = diagnostics_view(warnings@);
    let lowered = lowercase_token(t);
    if !str_equal(lowered.as_str(), t.string.as_str()) {
        let message = concat3(
            "token '",
            t.string.as_str(),
            "' contains uppercase characters and was made lowercase",
        );
        let warning = Diagnostic {
            kind: ErrorKind::CaseChanged,
            message,
            file: t.file,
            line: t.line,
            column: t.column,
        };
        warnings.push(warning);
        assert(diagnostics_view(warnings@) =~= before + seq![warning@]);
    } else {
        assert(diagnostics_view(warnings@) =~= before + Seq::<DiagnosticModel>::empty());
    }
}

/// Adds the warnings for an expression.
pub fn find_capitals(t: &Token, warnings: &mut Vec<Diagnostic>)
    ensures
        diagnostics_view(final(warnings)@) == diagnostics_view(old(warnings)@)
            + expression_warnings(t@),
    decreases t, 0nat,
{
    match &t.children {
        None => warn_word(t, warnings),
        Some(c) => {
            let is_cond = if c.len() > 0 {
                assert(tokens_view(c@)[0] == c@[0]@);
                let head = lowercase_token(&c[0]);
                str_equal(head.as_str(), "cond")
            } else {
                false
            };
            if is_cond {
                find_arm_capitals(c, warnings);
            } else {
                find_argument_capitals(c, 1, warnings);
            }
        },
    }
}

/// Adds the warnings for the expressions of a list from a position on.
#[verifier::loop_isolation(false)]
pub fn find_argument_capitals(c: &Vec<Token>, start: usize, warnings: &mut Vec<Diagnostic>)
    ensures
        diagnostics_view(final(warnings)@) == diagnostics_view(old(warnings)@)
            + argument_warnings(tokens_view(c@), start as int, c@.len() as int),
    decreases c, c@.len(),
{
    let ghost before = diagnostics_view(warnings@);
    let ghost all = tokens_view(c@);
    assert(diagnostics_view(warnings@) =~= before + Seq::<DiagnosticModel>::empty());
    if start >= c.len() {
        return ;
    }
    let mut i: usize = start;
    while i < c.len()
        invariant
            start <= i <= c@.len(),
            diagnostics_view(warnings@) == before + argument_warnings(
                all,
                start as int,
                i as int,
            ),
        decreases c@.len() - i,
    {
        assert(all[i as int] == c@[i as int]@);
        find_capitals(&c[i], warnings);
        assert(diagnostics_view(warnings@) =~= before + argument_warnings(
            all,
            start as int,
            i + 1,
        ));
        i += 1;
    }
}

#[verifier::loop_isolation(false)]
fn find_arm_capitals(c: &Vec<Token>, warnings: &mut Vec<Diagnostic>)
    ensures
        diagnostics_view(final(warnings)@) == diagnostics_view(old(warnings)@) + arm_warnings(
            tokens_view(c@),
            1,
            c@.len() as int,
        ),
    decreases c, c@.len(),
{
    let ghost before = diagnostics_view(warnings@);
    let ghost all = tokens_view(c@);
    assert(diagnostics_view(warnings@) =~= before + Seq::<DiagnosticModel>::empty());
    if 1 >= c.len() {
        return ;
    }
    let mut i: usize = 1;
    while i < c.len()
        invariant
            1 <= i <= c@.len(),
            diagnostics_view(warnings@) == before + arm_warnings(all, 1, i as int),
        decreases c@.len() - i,
    {
        assert(all[i as int] == c@[i as int]@);
        let ghost so_far = diagnostics_view(warnings@);
        match &c[i].children {
            Some(a) => {
                find_argument_capitals(a, 0, warnings);
            },
            None => {
                assert(diagnostics_view(warnings@) =~= so_far + Seq::<DiagnosticModel>::empty());
            },
        }
        assert(diagnostics_view(warnings@) =~= before + arm_warnings(all, 1, i + 1));
        i += 1;
    }
}

fn find_body_capitals(token: &Token, offset: usize, warnings: &mut Vec<Diagnostic>)
    ensures
        diagnostics_view(final(warnings)@) == diagnostics_view(old(warnings)@) + body_warnings(
            token@,
            offset as int,
        ),
{
    let ghost before = diagnostics_view(warnings@);
    match &token.children {
        Some(c) => find_argument_capitals(c, offset, warnings),
        None => {
            assert(diagnostics_view(warnings@) =~= before + Seq::<DiagnosticModel>::empty());
        },
    }
}

/// The warnings about capitals for the definitions of a file.
#[verifier::loop_isolation(false)]
pub fn find_all_capitals(scripts: &Vec<Script>, globals: &Vec<Global>) -> (r: Vec<Diagnostic>)
    ensures
        diagnostics_view(r@) == capitals(
            Classification { scripts: scripts_view(scripts@), globals: globals_view(globals@) },
        ),
{
    let mut warnings: Vec<Diagnostic> = Vec::new();
    let ghost all_globals = globals_view(globals@);
    let ghost all_scripts = scripts_view(scripts@);
    assert(diagnostics_view(warnings@) =~= Seq::empty());
    let mut i: usize = 0;
    while i < globals.len()
        invariant
            i <= globals@.len(),
            diagnostics_view(warnings@) == global_capitals(all_globals, i as int),
        decreases globals@.len() - i,
    {
        assert(all_globals[i as int] == globals@[i as int]@);
        find_body_capitals(&globals[i].original_token, 3, &mut warnings);
        i += 1;
    }
    let ghost first = diagnostics_view(warnings@);
    assert(first =~= first + Seq::<DiagnosticModel>::empty());
    let mut j: usize = 0;
    while j < scripts.len()
        invariant
            j <= scripts@.len(),
            diagnostics_view(warnings@) == first + script_capitals(all_scripts, j as int),
        decreases scripts@.len() - j,
    {
        assert(all_scripts[j as int] == scripts@[j as int]@);
        let ghost so_far = script_capitals(all_scripts, j as int);
        find_body_capitals(
            &scripts[j].original_token,
            scripts[j].script_type.expression_offset(),
            &mut warnings,
        );
        assert(diagnostics_view(warnings@) =~= first + script_capitals(all_scripts, j + 1));
        j += 1;
    }
    warnings
}

} // verus!
