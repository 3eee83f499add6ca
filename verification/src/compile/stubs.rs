//! Stub scripts. A stub is a placeholder: where another script has its
//! name, that script must be static and return the same type, and the stub
//! is removed. A stub without a namesake stays.

use crate::compile::analysis::fault_at;
use crate::compile::analyze::fault;
use crate::compile::script::scripts_view;
use crate::compile::script::Script;
use crate::compile::script::ScriptModel;
use crate::error::Diagnostic;
use crate::error::DiagnosticModel;
use crate::error::ErrorKind;
use crate::text::concat3;
use crate::text::concat7;
use crate::text::str_equal;
use crate::types::ScriptType;
use crate::value_type::ValueType;
use vstd::prelude::*;

verus! {

/// The first position at or after `j`, other than `i`, whose script has
/// the name of the script at `i`.
pub open spec fn namesake(scripts: Seq<ScriptModel>, i: int, j: int) -> Option<int>
    decreases scripts.len() - j,
{
    if j < 0 || j >= scripts.len() || i < 0 || i >= scripts.len() {
        None
    } else if j != i && scripts[j].name == scripts[i].name {
        Some(j)
    } else {
        namesake(scripts, i, j + 1)
    }
}

/// The message for a stub whose namesake is not static.
pub open spec fn stub_kind_message(name: Seq<char>) -> Seq<char> {
    "cannot replace stub script '"@ + name + "' with non-static script"@
}

/// The message for a stub whose namesake returns another type.
pub open spec fn stub_type_message(name: Seq<char>, stub: ValueType, other: ValueType) -> Seq<
    char,
> {
    "cannot replace stub script '"@ + name + "' that returns '"@ + stub.name()
        + "' with static script which returns '"@ + other.name() + "'"@
}

/// What a scan for a stub with a namesake finds.
pub enum StubScan {
    /// No stub has a namesake.
    Clean,
    /// The stub at this position is to be removed.
    Remove(int),
    /// The stub's namesake cannot replace it.
    Fault(DiagnosticModel),
}

/// The first stub at or after `i` that has a namesake, with what is to be
/// done about it.
pub open spec fn scan_stubs(scripts: Seq<ScriptModel>, i: int) -> StubScan
    decreases scripts.len() - i,
{
    if i < 0 || i >= scripts.len() {
        StubScan::Clean
    } else if scripts[i].script_type == ScriptType::Stub && namesake(scripts, i, 0) is Some {
        let other = scripts[namesake(scripts, i, 0)->0];
        if other.script_type != ScriptType::Static {
            StubScan::Fault(
                fault_at(
                    scripts[i].original_token,
                    ErrorKind::StubNotReplaceableByNonStatic,
                    stub_kind_message(scripts[i].name),
                ),
            )
        } else if other.return_type != scripts[i].return_type {
            StubScan::Fault(
                fault_at(
                    scripts[i].original_token,
                    ErrorKind::StubReturnMismatch,
                    stub_type_message(scripts[i].name, scripts[i].return_type, other.return_type),
                ),
            )
        } else {
            StubScan::Remove(i)
        }
    } else {
        scan_stubs(scripts, i + 1)
    }
}

/// The scripts without the stubs that a static script replaces, or the
/// diagnostic for the first stub whose namesake cannot replace it.
pub open spec fn without_stubs(scripts: Seq<ScriptModel>) -> Result<
    Seq<ScriptModel>,
    DiagnosticModel,
>
    decreases scripts.len(),
{
    match scan_stubs(scripts, 0) {
        StubScan::Clean => Ok(scripts),
        StubScan::Fault(d) => Err(d),
        StubScan::Remove(i) => if 0 <= i < scripts.len() {
            without_stubs(scripts.remove(i))
        } else {
            Ok(scripts)
        },
    }
}

/// Where stubs were removed, no stub with a namesake is left.
pub proof fn lemma_without_stubs_clean(scripts: Seq<ScriptModel>)
    ensures
        without_stubs(scripts) is Ok ==> scan_stubs(without_stubs(scripts)->Ok_0, 0)
            == StubScan::Clean,
    decreases scripts.len(),
{
    match scan_stubs(scripts, 0) {
        StubScan::Remove(i) => {
            if 0 <= i < scripts.len() {
                lemma_without_stubs_clean(scripts.remove(i));
            } else {
                lemma_scan_position(scripts, 0);
            }
        },
        _ => {},
    }
}

/// A stub that a scan wants removed stands at or after the place where
/// the scan began.
pub proof fn lemma_scan_position(scripts: Seq<ScriptModel>, i: int)
    requires
        0 <= i,
    ensures
        scan_stubs(scripts, i) is Remove ==> i <= scan_stubs(scripts, i)->Remove_0 < scripts.len(),
    decreases scripts.len() - i,
{
    if i < scripts.len() {
        if scripts[i].script_type == ScriptType::Stub && namesake(scripts, i, 0) is Some {
        } else {
            lemma_scan_position(scripts, i + 1);
        }
    }
}

/// Removing stubs a second time changes nothing.
pub proof fn lemma_without_stubs_idempotent(scripts: Seq<ScriptModel>)
    requires
        without_stubs(scripts) is Ok,
    ensures
        without_stubs(without_stubs(scripts)->Ok_0) == without_stubs(scripts),
{
    lemma_without_stubs_clean(scripts);
}

/// What a scan for a stub with a namesake finds.
enum Scan {
    Clean,
    Remove(usize),
}

fn find_namesake(scripts: &Vec<Script>, i: usize) -> (r: Option<usize>)
    requires
        i < scripts@.len(),
    ensures
        match r {
            Some(j) => namesake(scripts_view(scripts@), i as int, 0) == Some(j as int) && j
                < scripts@.len(),
            None => namesake(scripts_view(scripts@), i as int, 0) is None,
        },
{
    let ghost all = scripts_view(scripts@);
    let mut j: usize = 0;
    while j < scripts.len()
        invariant
            j <= scripts@.len(),
            i < scripts@.len(),
            all == scripts_view(scripts@),
            namesake(all, i as int, 0) == namesake(all, i as int, j as int),
        decreases scripts@.len() - j,
    {
        assert(all[j as int] == scripts@[j as int]@);
        assert(all[i as int] == scripts@[i as int]@);
        if j != i && str_equal(scripts[j].name.as_str(), scripts[i].name.as_str()) {
            return Some(j);
        }
        j += 1;
    }
    None
}

fn scan(scripts: &Vec<Script>) -> (r: Result<Scan, Diagnostic>)
    ensures
        match r {
            Ok(Scan::Clean) => scan_stubs(scripts_view(scripts@), 0) == StubScan::Clean,
            Ok(Scan::Remove(i)) => scan_stubs(scripts_view(scripts@), 0) == StubScan::Remove(
                i as int,
            ) && i < scripts@.len(),
            Err(d) => scan_stubs(scripts_view(scripts@), 0) == StubScan::Fault(d@),
        },
{
    let ghost all = scripts_view(scripts@);
    let mut i: usize = 0;
    while i < scripts.len()
        invariant
            i <= scripts@.len(),
            all == scripts_view(scripts@),
            scan_stubs(all, 0) == scan_stubs(all, i as int),
        decreases scripts@.len() - i,
    {
        assert(all[i as int] == scripts@[i as int]@);
        if scripts[i].script_type == ScriptType::Stub {
            match find_namesake(scripts, i) {
                Some(j) => {
                    assert(all[j as int] == scripts@[j as int]@);
                    if scripts[j].script_type != ScriptType::Static {
                        let message = concat3(
                            "cannot replace stub script '",
                            scripts[i].name.as_str(),
                            "' with non-static script",
                        );
                        return Err(
                            fault(
                                &scripts[i].original_token,
                                ErrorKind::StubNotReplaceableByNonStatic,
                                message,
                            ),
                        );
                    }
                    if scripts[j].return_type != scripts[i].return_type {
                        let message = concat7(
                            "cannot replace stub script '",
                            scripts[i].name.as_str(),
                            "' that returns '",
                            scripts[i].return_type.as_str(),
                            "' with static script which returns '",
                            scripts[j].return_type.as_str(),
                            "'",
                        );
                        return Err(
                            fault(
                                &scripts[i].original_token,
                                ErrorKind::StubReturnMismatch,
                                message,
                            ),
                        );
                    }
                    return Ok(Scan::Remove(i));
                },
                None => {},
            }
        }
        i += 1;
    }
    Ok(Scan::Clean)
}

/// Removes the stubs that a static script replaces.
pub fn remove_stubs(scripts: Vec<Script>) -> (r: Result<Vec<Script>, Diagnostic>)
    ensures
        match r {
            Ok(kept) => without_stubs(scripts_view(scripts@)) == Ok::<
                Seq<ScriptModel>,
                DiagnosticModel,
            >(scripts_view(kept@)),
            Err(d) => without_stubs(scripts_view(scripts@)) == Err::<
                Seq<ScriptModel>,
                DiagnosticModel,
            >(d@),
        },
{
    let mut kept = scripts;
    loop
        invariant
            without_stubs(scripts_view(scripts@)) == without_stubs(scripts_view(kept@)),
        decreases kept@.len(),
    {
        match scan(&kept)? {
            Scan::Clean => {
                return Ok(kept);
            },
            Scan::Remove(i) => {
                let ghost before = kept@;
                kept.remove(i);
                assert(scripts_view(kept@) =~= scripts_view(before).remove(i as int));
            },
        }
    }
}

} // verus!
