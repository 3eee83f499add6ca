//! Building a catalog from a definition document.
//!
//! The document lists functions and globals. Each names its type in words
//! with underscores between them, and carries a table that gives, for each
//! engine that has the entry, the entry's index there. Where the table
//! names an engine without a number, the index is 65535.

use crate::definitions::Definitions;
use crate::definitions::EngineAvailability;
use crate::definitions::EngineFunction;
use crate::definitions::EngineFunctionParameter;
use crate::definitions::EngineGlobal;
use crate::text::str_equal;
use crate::value_type::ValueType;
use vstd::prelude::*;

verus! {

/// One line of an entry's engine table: the key of an engine, and the
/// index where the table gives one.
#[derive(Debug)]
pub struct DefinitionEngine {
    pub name: String,
    pub index: Option<u64>,
}

/// A parameter as the document describes it.
#[derive(Debug)]
pub struct DefinitionParameter {
    pub value_type: String,
    pub many: bool,
    pub allow_uppercase: bool,
    pub optional: bool,
}

/// A function as the document describes it.
#[derive(Debug)]
pub struct DefinitionFunction {
    pub name: String,
    pub value_type: String,
    pub parameters: Vec<DefinitionParameter>,
    pub number_passthrough: bool,
    pub inequality: bool,
    pub passthrough_last: bool,
    pub engines: Vec<DefinitionEngine>,
}

/// A global as the document describes it.
#[derive(Debug)]
pub struct DefinitionGlobal {
    pub name: String,
    pub value_type: String,
    pub engines: Vec<DefinitionEngine>,
}

/// What the last line before `end` with a key says; `None` where no line
/// has the key.
pub open spec fn engine_line(engines: Seq<DefinitionEngine>, key: Seq<char>, end: int) -> Option<
    Option<u64>,
>
    decreases end,
{
    if end <= 0 || end > engines.len() {
        None
    } else if engines[end - 1].name@ == key {
        Some(engines[end - 1].index)
    } else {
        engine_line(engines, key, end - 1)
    }
}

/// The index of an entry on the engine with a key: none where the table
/// does not name the engine, 65535 where it names it without a number, and
/// the number otherwise. A number above 65535 is a fault.
pub open spec fn engine_slot(engines: Seq<DefinitionEngine>, key: Seq<char>) -> Result<
    Option<u16>,
    (),
> {
    match engine_line(engines, key, engines.len() as int) {
        None => Ok(None),
        Some(None) => Ok(Some(0xFFFF)),
        Some(Some(v)) => if v <= 0xFFFF {
            Ok(Some(v as u16))
        } else {
            Err(())
        },
    }
}

/// The availability that an engine table describes, or `None` where a
/// number of the table is above 65535.
pub open spec fn table_availability(engines: Seq<DefinitionEngine>) -> Option<EngineAvailability> {
    match (
        engine_slot(engines, "mcc-cea"@),
        engine_slot(engines, "xbox"@),
        engine_slot(engines, "gbx-custom"@),
        engine_slot(engines, "gbx-retail"@),
        engine_slot(engines, "gbx-demo"@),
    ) {
        (Ok(mcc_cea), Ok(xbox), Ok(gbx_custom), Ok(gbx_retail), Ok(gbx_demo)) => Some(
            EngineAvailability { mcc_cea, gbx_retail, gbx_custom, gbx_demo, xbox },
        ),
        _ => None,
    }
}

/// Whether a catalog parameter is what the document describes.
pub open spec fn is_parameter_of(p: EngineFunctionParameter, d: DefinitionParameter) -> bool {
    &&& Some(p.value_type) == ValueType::from_underscore_name(d.value_type@)
    &&& p.many == d.many
    &&& p.allow_uppercase == d.allow_uppercase
    &&& p.optional == d.optional
}

/// Whether a catalog function is what the document describes.
pub open spec fn is_function_of(f: EngineFunction, d: DefinitionFunction) -> bool {
    &&& f.name@ == d.name@
    &&& Some(f.return_type) == ValueType::from_underscore_name(d.value_type@)
    &&& Some(f.availability) == table_availability(d.engines@)
    &&& f.number_passthrough == d.number_passthrough
    &&& f.inequality == d.inequality
    &&& f.passthrough_last == d.passthrough_last
    &&& f.parameters@.len() == d.parameters@.len()
    &&& forall|i: int|
        0 <= i < d.parameters@.len() ==> is_parameter_of(
            #[trigger] f.parameters@[i],
            d.parameters@[i],
        )
}

/// Whether a catalog global is what the document describes.
pub open spec fn is_global_of(g: EngineGlobal, d: DefinitionGlobal) -> bool {
    &&& g.name@ == d.name@
    &&& Some(g.value_type) == ValueType::from_underscore_name(d.value_type@)
    &&& Some(g.availability) == table_availability(d.engines@)
}

/// Whether the document describes a function that a catalog can hold: its
/// types are known and no index is above 65535.
pub open spec fn is_valid_function(d: DefinitionFunction) -> bool {
    &&& ValueType::from_underscore_name(d.value_type@) is Some
    &&& table_availability(d.engines@) is Some
    &&& forall|i: int|
        0 <= i < d.parameters@.len() ==> ValueType::from_underscore_name(
            (#[trigger] d.parameters@[i]).value_type@,
        ) is Some
}

/// Whether the document describes a global that a catalog can hold.
pub open spec fn is_valid_global(d: DefinitionGlobal) -> bool {
    &&& ValueType::from_underscore_name(d.value_type@) is Some
    &&& table_availability(d.engines@) is Some
}

fn slot(engines: &Vec<DefinitionEngine>, key: &str) -> (r: Result<Option<u16>, ()>)
    ensures
        r == engine_slot(engines@, key@),
{
    let mut end: usize = engines.len();
    while end > 0
        invariant
            end <= engines@.len(),
            engine_line(engines@, key@, engines@.len() as int) == engine_line(
                engines@,
                key@,
                end as int,
            ),
        decreases end,
    {
        if str_equal(engines[end - 1].name.as_str(), key) {
            return match engines[end - 1].index {
                None => Ok(Some(0xFFFF)),
                Some(v) => if v <= 0xFFFF {
                    Ok(Some(v as u16))
                } else {
                    Err(())
                },
            };
        }
        end -= 1;
    }
    Ok(None)
}

/// The availability that an engine table describes.
pub fn generate_availability(engines: &Vec<DefinitionEngine>) -> (r: Option<EngineAvailability>)
    ensures
        r == table_availability(engines@),
{
    let mcc_cea = slot(engines, "mcc-cea");
    let xbox = slot(engines, "xbox");
    let gbx_custom = slot(engines, "gbx-custom");
    let gbx_retail = slot(engines, "gbx-retail");
    let gbx_demo = slot(engines, "gbx-demo");
    match (mcc_cea, xbox, gbx_custom, gbx_retail, gbx_demo) {
        (Ok(mcc_cea), Ok(xbox), Ok(gbx_custom), Ok(gbx_retail), Ok(gbx_demo)) => Some(
            EngineAvailability { mcc_cea, gbx_retail, gbx_custom, gbx_demo, xbox },
        ),
        _ => None,
    }
}

fn generate_parameters(parameters: &Vec<DefinitionParameter>) -> (r: Option<
    Vec<EngineFunctionParameter>,
>)
    ensures
        match r {
            Some(p) => p@.len() == parameters@.len() && (forall|i: int|
                0 <= i < parameters@.len() ==> is_parameter_of(#[trigger] p@[i], parameters@[i]))
                && forall|i: int|
                0 <= i < parameters@.len() ==> ValueType::from_underscore_name(
                    (#[trigger] parameters@[i]).value_type@,
                ) is Some,
            None => exists|i: int|
                0 <= i < parameters@.len() && ValueType::from_underscore_name(
                    (#[trigger] parameters@[i]).value_type@,
                ) is None,
        },
{
    let mut out: Vec<EngineFunctionParameter> = Vec::new();
    let mut i: usize = 0;
    while i < parameters.len()
        invariant
            i <= parameters@.len(),
            out@.len() == i,
            forall|k: int| 0 <= k < i ==> is_parameter_of(#[trigger] out@[k], parameters@[k]),
            forall|k: int|
                0 <= k < i ==> ValueType::from_underscore_name(
                    (#[trigger] parameters@[k]).value_type@,
                ) is Some,
        decreases parameters@.len() - i,
    {
        let d = &parameters[i];
        match ValueType::from_str_underscore(d.value_type.as_str()) {
            Some(value_type) => {
                out.push(
                    EngineFunctionParameter {
                        value_type,
                        many: d.many,
                        allow_uppercase: d.allow_uppercase,
                        optional: d.optional,
                    },
                );
            },
            None => {
                return None;
            },
        }
        i += 1;
    }
    Some(out)
}

/// The catalog function that the document describes, or `None` where it
/// describes none that a catalog can hold.
pub fn generate_function(d: &DefinitionFunction) -> (r: Option<EngineFunction>)
    ensures
        match r {
            Some(f) => is_function_of(f, *d) && is_valid_function(*d),
            None => !is_valid_function(*d),
        },
{
    let return_type = match ValueType::from_str_underscore(d.value_type.as_str()) {
        Some(t) => t,
        None => {
            return None;
        },
    };
    let availability = match generate_availability(&d.engines) {
        Some(a) => a,
        None => {
            return None;
        },
    };
    let parameters = match generate_parameters(&d.parameters) {
        Some(p) => p,
        None => {
            return None;
        },
    };
    Some(
        EngineFunction {
            name: d.name.clone(),
            parameters,
            number_passthrough: d.number_passthrough,
            passthrough_last: d.passthrough_last,
            inequality: d.inequality,
            return_type,
            availability,
        },
    )
}

/// The catalog global that the document describes, or `None` where it
/// describes none that a catalog can hold.
pub fn generate_global(d: &DefinitionGlobal) -> (r: Option<EngineGlobal>)
    ensures
        match r {
            Some(g) => is_global_of(g, *d) && is_valid_global(*d),
            None => !is_valid_global(*d),
        },
{
    let value_type = match ValueType::from_str_underscore(d.value_type.as_str()) {
        Some(t) => t,
        None => {
            return None;
        },
    };
    let availability = match generate_availability(&d.engines) {
        Some(a) => a,
        None => {
            return None;
        },
    };
    Some(EngineGlobal { name: d.name.clone(), value_type, availability })
}

/// The catalog that a definition document describes: its functions and
/// globals, one for one and in order. `None` where an entry names an
/// unknown type or gives an index above 65535.
pub fn generate_definitions(functions: &Vec<DefinitionFunction>, globals: &Vec<DefinitionGlobal>) -> (r:
    Option<Definitions>)
    ensures
        match r {
            Some(d) => {
                &&& d.functions@.len() == functions@.len()
                &&& d.globals@.len() == globals@.len()
                &&& forall|i: int|
                    0 <= i < functions@.len() ==> is_function_of(
                        #[trigger] d.functions@[i],
                        functions@[i],
                    )
                &&& forall|i: int|
                    0 <= i < globals@.len() ==> is_global_of(#[trigger] d.globals@[i], globals@[i])
            },
            None => (exists|i: int|
                0 <= i < functions@.len() && !is_valid_function(#[trigger] functions@[i]))
                || exists|i: int| 0 <= i < globals@.len() && !is_valid_global(#[trigger] globals@[i]),
        },
        r is Some <==> (forall|i: int|
            0 <= i < functions@.len() ==> is_valid_function(#[trigger] functions@[i])) && (forall|
            i: int,
        | 0 <= i < globals@.len() ==> is_valid_global(#[trigger] globals@[i])),
{
    let mut out_functions: Vec<EngineFunction> = Vec::new();
    let mut i: usize = 0;
    while i < functions.len()
        invariant
            i <= functions@.len(),
            out_functions@.len() == i,
            forall|k: int|
                0 <= k < i ==> is_function_of(#[trigger] out_functions@[k], functions@[k]),
            forall|k: int| 0 <= k < i ==> is_valid_function(#[trigger] functions@[k]),
        decreases functions@.len() - i,
    {
        match generate_function(&functions[i]) {
            Some(f) => {
                out_functions.push(f);
            },
            None => {
                return None;
            },
        }
        i += 1;
    }
    let mut out_globals: Vec<EngineGlobal> = Vec::new();
    let mut j: usize = 0;
    while j < globals.len()
        invariant
            j <= globals@.len(),
            out_globals@.len() == j,
            forall|k: int| 0 <= k < j ==> is_global_of(#[trigger] out_globals@[k], globals@[k]),
            forall|k: int| 0 <= k < j ==> is_valid_global(#[trigger] globals@[k]),
        decreases globals@.len() - j,
    {
        match generate_global(&globals[j]) {
            Some(g) => {
                out_globals.push(g);
            },
            None => {
                return None;
            },
        }
        j += 1;
    }
    Some(Definitions::new(out_functions, out_globals))
}

} // verus!
