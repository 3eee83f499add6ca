//! What must hold of the scripts and globals of a file before indices are
//! given out: names are no longer than 31 bytes, no two scripts and no two
//! globals share a name, there are at most 32767 of each, and every node
//! has a type.

use crate::compile::analysis::fault_at;
use crate::compile::analyze::fault;
use crate::compile::node::nodes_view;
use crate::compile::node::Node;
use crate::compile::node::NodeModel;
use crate::compile::script::globals_view;
use crate::compile::script::scripts_view;
use crate::compile::script::Global;
use crate::compile::script::GlobalModel;
use crate::compile::script::Script;
use crate::compile::script::ScriptModel;
use crate::error::Diagnostic;
use crate::error::DiagnosticModel;
use crate::error::ErrorKind;
use crate::text::byte_length;
use crate::text::concat3;
use crate::text::decimal;
use crate::text::decimal_string;
use crate::text::str_equal;
use crate::token::Token;
use crate::token::TokenModel;
use crate::value_type::ValueType;
use vstd::prelude::*;
use vstd::string::*;

verus! {

/// The longest name, in bytes.
pub open spec fn name_limit() -> nat {
    31
}

/// The largest number of scripts, and of globals.
pub open spec fn count_limit() -> nat {
    32767
}

/// The message for a global whose name is too long.
pub open spec fn long_global_message(name: Seq<char>) -> Seq<char> {
    "global name '"@ + name + "' exceeds 31 characters in length"@
}

/// The message for a script whose name is too long.
pub open spec fn long_script_message(name: Seq<char>) -> Seq<char> {
    "script name '"@ + name + "' exceeds 31 characters in length"@
}

/// The diagnostic for a name that is too long, if it is.
pub open spec fn name_fault(name: Seq<char>, token: TokenModel, for_script: bool) -> Option<
    DiagnosticModel,
> {
    if byte_length(name) > name_limit() {
        Some(
            fault_at(
                token,
                ErrorKind::NameTooLong,
                if for_script {
                    long_script_message(name)
                } else {
                    long_global_message(name)
                },
            ),
        )
    } else {
        None
    }
}

/// Holds a name against the limit of 31 bytes.
pub fn check_name(name: &str, token: &Token, for_script: bool) -> (r: Result<(), Diagnostic>)
    ensures
        match r {
            Ok(_) => name_fault(name@, token@, for_script) is None,
            Err(d) => name_fault(name@, token@, for_script) == Some(d@),
        },
{
    if name.as_bytes().len() > 31 {
        let message = if for_script {
            concat3("script name '", name, "' exceeds 31 characters in length")
        } else {
            concat3("global name '", name, "' exceeds 31 characters in length")
        };
        Err(fault(token, ErrorKind::NameTooLong, message))
    } else {
        Ok(())
    }
}

/// Whether a position at or after `j` holds the name at position `i`.
pub open spec fn occurs_from(names: Seq<Seq<char>>, i: int, j: int) -> bool
    decreases names.len() - j,
{
    if j < 0 || j >= names.len() || i < 0 || i >= names.len() {
        false
    } else if names[j] == names[i] {
        true
    } else {
        occurs_from(names, i, j + 1)
    }
}

/// The first position at or after `i` whose name occurs again later.
pub open spec fn first_repeated(names: Seq<Seq<char>>, i: int) -> Option<int>
    decreases names.len() - i,
{
    if i < 0 || i >= names.len() {
        None
    } else if occurs_from(names, i, i + 1) {
        Some(i)
    } else {
        first_repeated(names, i + 1)
    }
}

/// Whether no two positions hold the same name.
pub open spec fn all_distinct(names: Seq<Seq<char>>) -> bool {
    forall|i: int, j: int| 0 <= i < j < names.len() ==> names[i] != names[j]
}

/// A name that does not occur from `j` on differs from every name there.
pub proof fn lemma_occurs_from(names: Seq<Seq<char>>, i: int, j: int)
    requires
        0 <= i < names.len(),
        0 <= j,
    ensures
        occurs_from(names, i, j) <==> exists|k: int| j <= k < names.len() && names[k] == names[i],
    decreases names.len() - j,
{
    if j < names.len() {
        if names[j] == names[i] {
        } else {
            lemma_occurs_from(names, i, j + 1);
        }
    }
}

/// Where no name is repeated from `i` on, the names from `i` on are
/// pairwise distinct.
pub proof fn lemma_first_repeated(names: Seq<Seq<char>>, i: int)
    requires
        0 <= i,
    ensures
        first_repeated(names, i) is None <==> forall|a: int, b: int|
            i <= a < b < names.len() ==> names[a] != names[b],
        first_repeated(names, i) is Some ==> i <= first_repeated(names, i)->0 < names.len(),
    decreases names.len() - i,
{
    if i < names.len() {
        lemma_occurs_from(names, i, i + 1);
        lemma_first_repeated(names, i + 1);
        if occurs_from(names, i, i + 1) {
            let k = choose|k: int| i + 1 <= k < names.len() && names[k] == names[i];
            assert(names[i] == names[k]);
        } else {
            if first_repeated(names, i + 1) is None {
                assert forall|a: int, b: int| i <= a < b < names.len() implies names[a]
                    != names[b] by {
                    if a == i {
                    }
                }
            }
        }
    }
}

/// No repeated name means that the names are pairwise distinct.
pub proof fn lemma_distinct(names: Seq<Seq<char>>)
    ensures
        first_repeated(names, 0) is None <==> all_distinct(names),
{
    lemma_first_repeated(names, 0);
}

/// The names of a list of scripts.
pub open spec fn script_names(scripts: Seq<ScriptModel>) -> Seq<Seq<char>> {
    Seq::new(scripts.len(), |i: int| scripts[i].name)
}

/// The names of a list of globals.
pub open spec fn global_names(globals: Seq<GlobalModel>) -> Seq<Seq<char>> {
    Seq::new(globals.len(), |i: int| globals[i].name)
}

/// The values of a list of texts.
pub open spec fn names_view(names: Seq<String>) -> Seq<Seq<char>> {
    Seq::new(names.len(), |i: int| names[i]@)
}

/// The message for a script whose name occurs again.
pub open spec fn repeated_script_message(name: Seq<char>) -> Seq<char> {
    "multiple scripts '"@ + name + "' defined"@
}

/// The message for a global whose name occurs again.
pub open spec fn repeated_global_message(name: Seq<char>) -> Seq<char> {
    "multiple globals '"@ + name + "' defined"@
}

/// The message for a file with too many scripts.
pub open spec fn script_limit_message(count: nat) -> Seq<char> {
    "maximum script limit of 32767 exceeded ("@ + decimal(count) + " / 32767)"@
}

/// The message for a file with too many globals.
pub open spec fn global_limit_message(count: nat) -> Seq<char> {
    "maximum global limit of 32767 exceeded ("@ + decimal(count) + " / 32767)"@
}

/// The first thing wrong with the scripts and globals of a file: a script
/// whose name occurs again, a global whose name occurs again, too many
/// scripts, or too many globals. Each is reported at the first definition
/// in question.
pub open spec fn definitions_fault(
    scripts: Seq<ScriptModel>,
    globals: Seq<GlobalModel>,
) -> Option<DiagnosticModel> {
    if first_repeated(script_names(scripts), 0) is Some {
        let i = first_repeated(script_names(scripts), 0)->0;
        Some(
            fault_at(
                scripts[i].original_token,
                ErrorKind::DuplicateScript,
                repeated_script_message(scripts[i].name),
            ),
        )
    } else if first_repeated(global_names(globals), 0) is Some {
        let i = first_repeated(global_names(globals), 0)->0;
        Some(
            fault_at(
                globals[i].original_token,
                ErrorKind::DuplicateGlobal,
                repeated_global_message(globals[i].name),
            ),
        )
    } else if scripts.len() > count_limit() {
        Some(
            fault_at(
                scripts[count_limit() as int].original_token,
                ErrorKind::TooManyScripts,
                script_limit_message(scripts.len()),
            ),
        )
    } else if globals.len() > count_limit() {
        Some(
            fault_at(
                globals[count_limit() as int].original_token,
                ErrorKind::TooManyGlobals,
                global_limit_message(globals.len()),
            ),
        )
    } else {
        None
    }
}

#[verifier::loop_isolation(false)]
fn find_repeated(names: &Vec<String>) -> (r: Option<usize>)
    ensures
        match r {
            Some(i) => first_repeated(names_view(names@), 0) == Some(i as int) && i
                < names@.len(),
            None => first_repeated(names_view(names@), 0) is None,
        },
{
    let ghost all = names_view(names@);
    let mut i: usize = 0;
    while i < names.len()
        invariant
            i <= names@.len(),
            all == names_view(names@),
            first_repeated(all, 0) == first_repeated(all, i as int),
        decreases names@.len() - i,
    {
        let mut j: usize = i + 1;
        let mut found = false;
        while j < names.len()
            invariant
                i < j <= names@.len(),
                all == names_view(names@),
                !found,
                occurs_from(all, i as int, i + 1) == occurs_from(all, i as int, j as int),
            decreases names@.len() - j,
        {
            assert(all[j as int] == names@[j as int]@);
            assert(all[i as int] == names@[i as int]@);
            if str_equal(names[j].as_str(), names[i].as_str()) {
                return Some(i);
            }
            j += 1;
        }
        i += 1;
    }
    None
}

fn names_of_scripts(scripts: &Vec<Script>) -> (r: Vec<String>)
    ensures
        names_view(r@) == script_names(scripts_view(scripts@)),
{
    let mut names: Vec<String> = Vec::new();
    let mut i: usize = 0;
    while i < scripts.len()
        invariant
            i <= scripts@.len(),
            names@.len() == i,
            forall|k: int| 0 <= k < i ==> names@[k]@ == scripts@[k].name@,
        decreases scripts@.len() - i,
    {
        names.push(scripts[i].name.clone());
        i += 1;
    }
    assert(names_view(names@) =~= script_names(scripts_view(scripts@)));
    names
}

fn names_of_globals(globals: &Vec<Global>) -> (r: Vec<String>)
    ensures
        names_view(r@) == global_names(globals_view(globals@)),
{
    let mut names: Vec<String> = Vec::new();
    let mut i: usize = 0;
    while i < globals.len()
        invariant
            i <= globals@.len(),
            names@.len() == i,
            forall|k: int| 0 <= k < i ==> names@[k]@ == globals@[k].name@,
        decreases globals@.len() - i,
    {
        names.push(globals[i].name.clone());
        i += 1;
    }
    assert(names_view(names@) =~= global_names(globals_view(globals@)));
    names
}

/// Holds the scripts and globals of a file against the rules on names and
/// counts.
pub fn check_definitions(scripts: &Vec<Script>, globals: &Vec<Global>) -> (r: Result<
    (),
    Diagnostic,
>)
    ensures
        match r {
            Ok(_) => definitions_fault(scripts_view(scripts@), globals_view(globals@)) is None,
            Err(d) => definitions_fault(scripts_view(scripts@), globals_view(globals@)) == Some(
                d@,
            ),
        },
        r is Ok ==> scripts@.len() <= count_limit() && globals@.len() <= count_limit()
            && all_distinct(script_names(scripts_view(scripts@))) && all_distinct(
            global_names(globals_view(globals@)),
        ),
{
    proof {
        lemma_distinct(script_names(scripts_view(scripts@)));
        lemma_distinct(global_names(globals_view(globals@)));
    }
    let script_names = names_of_scripts(scripts);
    match find_repeated(&script_names) {
        Some(i) => {
            assert(scripts_view(scripts@)[i as int] == scripts@[i as int]@);
            let message = concat3("multiple scripts '", scripts[i].name.as_str(), "' defined");
            return Err(fault(&scripts[i].original_token, ErrorKind::DuplicateScript, message));
        },
        None => {},
    }
    let global_names = names_of_globals(globals);
    match find_repeated(&global_names) {
        Some(i) => {
            assert(globals_view(globals@)[i as int] == globals@[i as int]@);
            let message = concat3("multiple globals '", globals[i].name.as_str(), "' defined");
            return Err(fault(&globals[i].original_token, ErrorKind::DuplicateGlobal, message));
        },
        None => {},
    }
    if scripts.len() > 32767 {
        assert(scripts_view(scripts@)[32767] == scripts@[32767]@);
        let count = decimal_string(scripts.len());
        let message = concat3(
            "maximum script limit of 32767 exceeded (",
            count.as_str(),
            " / 32767)",
        );
        return Err(fault(&scripts[32767].original_token, ErrorKind::TooManyScripts, message));
    }
    if globals.len() > 32767 {
        assert(globals_view(globals@)[32767] == globals@[32767]@);
        let count = decimal_string(globals.len());
        let message = concat3(
            "maximum global limit of 32767 exceeded (",
            count.as_str(),
            " / 32767)",
        );
        return Err(fault(&globals[32767].original_token, ErrorKind::TooManyGlobals, message));
    }
    Ok(())
}

/// Whether a type is left open.
pub open spec fn is_open(t: ValueType) -> bool {
    t == ValueType::Unparsed || t == ValueType::Passthrough
}

/// Whether every node of a tree has a type.
pub open spec fn is_resolved(n: NodeModel) -> bool
    decreases n,
{
    &&& !is_open(n.value_type)
    &&& n.parameters is Some ==> forall|i: int|
        0 <= i < n.parameters->0.len() ==> is_resolved(#[trigger] n.parameters->0[i])
}

/// The message for a node that is left without a type.
pub open spec fn unresolved_message(t: ValueType) -> Seq<char> {
    "expression is left with the type '"@ + t.name() + "'"@
}

/// The diagnostic for the first node of a tree, parents before children
/// and children in order, that has no type.
pub open spec fn unresolved(n: NodeModel) -> Option<DiagnosticModel>
    decreases n, 0nat,
{
    if is_open(n.value_type) {
        Some(
            DiagnosticModel {
                kind: ErrorKind::UnresolvedType,
                message: unresolved_message(n.value_type),
                file: n.file,
                line: n.line,
                column: n.column,
            },
        )
    } else {
        match n.parameters {
            Some(p) => unresolved_among(p, 0),
            None => None,
        }
    }
}

/// The diagnostic for the first node without a type in the trees from
/// position `i` on.
pub open spec fn unresolved_among(s: Seq<NodeModel>, i: int) -> Option<DiagnosticModel>
    decreases s, s.len() - i,
{
    if i < 0 || i >= s.len() {
        None
    } else {
        match unresolved(s[i]) {
            Some(d) => Some(d),
            None => unresolved_among(s, i + 1),
        }
    }
}

/// A tree has no node without a type exactly when every node has one.
pub proof fn lemma_unresolved(n: NodeModel)
    ensures
        unresolved(n) is None <==> is_resolved(n),
    decreases n, 0nat,
{
    if !is_open(n.value_type) {
        match n.parameters {
            Some(p) => {
                lemma_unresolved_among(p, 0);
            },
            None => {},
        }
    }
}

/// No tree from position `i` on has a node without a type exactly when
/// every node of each has one.
pub proof fn lemma_unresolved_among(s: Seq<NodeModel>, i: int)
    requires
        0 <= i,
    ensures
        unresolved_among(s, i) is None <==> forall|k: int|
            i <= k < s.len() ==> is_resolved(#[trigger] s[k]),
    decreases s, s.len() - i,
{
    if i < s.len() {
        lemma_unresolved(s[i]);
        lemma_unresolved_among(s, i + 1);
        if unresolved(s[i]) is None && unresolved_among(s, i + 1) is None {
            assert forall|k: int| i <= k < s.len() implies is_resolved(#[trigger] s[k]) by {
                if k == i {
                }
            }
        }
    }
}

/// Looks for a node without a type.
#[verifier::loop_isolation(false)]
pub fn check_resolved(node: &Node) -> (r: Result<(), Diagnostic>)
    ensures
        match r {
            Ok(_) => unresolved(node@) is None && is_resolved(node@),
            Err(d) => unresolved(node@) == Some(d@),
        },
    decreases node, 0nat,
{
    proof {
        lemma_unresolved(node@);
    }
    if node.value_type == ValueType::Unparsed || node.value_type == ValueType::Passthrough {
        let message = concat3(
            "expression is left with the type '",
            node.value_type.as_str(),
            "'",
        );
        return Err(
            Diagnostic {
                kind: ErrorKind::UnresolvedType,
                message,
                file: node.file,
                line: node.line,
                column: node.column,
            },
        );
    }
    match &node.parameters {
        Some(p) => {
            let ghost all = nodes_view(p@);
            let mut i: usize = 0;
            while i < p.len()
                invariant
                    i <= p@.len(),
                    all == nodes_view(p@),
                    node.parameters == Some(*p),
                    unresolved_among(all, 0) == unresolved_among(all, i as int),
                decreases p@.len() - i,
            {
                assert(all[i as int] == p@[i as int]@);
                check_resolved(&p[i])?;
                i += 1;
            }
            Ok(())
        },
        None => Ok(()),
    }
}

} // verus!
