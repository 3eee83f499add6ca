//! The catalog of what an engine offers: its functions and globals, each with
//! the targets it exists on.

use crate::text::str_equal;
use crate::types::CompileTarget;
use crate::value_type::ValueType;
use vstd::prelude::*;
use vstd::string::*;

verus! {

/// For each target, the index of an entry in that engine's table, or `None`
/// where the engine does not have the entry.
#[derive(Copy, Clone, PartialEq, Eq, Structural, Debug)]
pub struct EngineAvailability {
    pub mcc_cea: Option<u16>,
    pub gbx_retail: Option<u16>,
    pub gbx_custom: Option<u16>,
    pub gbx_demo: Option<u16>,
    pub xbox: Option<u16>,
}

impl EngineAvailability {
    /// The index of the entry on a target.
    pub open spec fn index_on(self, target: CompileTarget) -> Option<u16> {
        match target {
            CompileTarget::HaloCEA => self.mcc_cea,
            CompileTarget::HaloCEXboxNTSC => self.xbox,
            CompileTarget::HaloCEGBX => self.gbx_retail,
            CompileTarget::HaloCEGBXDemo => self.gbx_demo,
            CompileTarget::HaloCustomEdition => self.gbx_custom,
        }
    }

    /// The index of the entry on a target, or `None` where the target does
    /// not have it.
    pub fn index_for_target(&self, target: CompileTarget) -> (r: Option<u16>)
        ensures
            r == self.index_on(target),
    {
        match target {
            CompileTarget::HaloCEA => self.mcc_cea,
            CompileTarget::HaloCEXboxNTSC => self.xbox,
            CompileTarget::HaloCEGBX => self.gbx_retail,
            CompileTarget::HaloCEGBXDemo => self.gbx_demo,
            CompileTarget::HaloCustomEdition => self.gbx_custom,
        }
    }

    /// Whether the target has the entry.
    pub fn supports_target(&self, target: CompileTarget) -> (r: bool)
        ensures
            r == self.index_on(target).is_some(),
    {
        self.index_for_target(target).is_some()
    }

    /// Whether the target has the entry.
    pub fn supports(&self, target: CompileTarget) -> (r: bool)
        ensures
            r == self.index_on(target).is_some(),
    {
        self.supports_target(target)
    }
}

/// One parameter of an engine function.
#[derive(Copy, Clone, PartialEq, Eq, Structural, Debug)]
pub struct EngineFunctionParameter {
    pub value_type: ValueType,
    /// The parameter, which must be the last, may be given any number of
    /// times.
    pub many: bool,
    /// A literal given for the parameter keeps its capitals.
    pub allow_uppercase: bool,
    /// The parameter and all after it may be left out.
    pub optional: bool,
}

/// The number of leading parameters that are not optional.
pub open spec fn required_count(parameters: Seq<EngineFunctionParameter>) -> nat
    decreases parameters.len(),
{
    if parameters.len() == 0 || parameters[0].optional {
        0
    } else {
        1 + required_count(parameters.drop_first())
    }
}

/// The type expected of the argument at a position: that of the parameter
/// there, or that of a last parameter that may be repeated.
pub open spec fn expected_at(parameters: Seq<EngineFunctionParameter>, index: int) -> Option<
    ValueType,
> {
    if 0 <= index < parameters.len() {
        Some(parameters[index].value_type)
    } else if parameters.len() > 0 && index >= 0 && parameters.last().many {
        Some(parameters.last().value_type)
    } else {
        None
    }
}

/// Whether a literal at a position keeps its capitals.
pub open spec fn uppercase_at(parameters: Seq<EngineFunctionParameter>, index: int) -> bool {
    0 <= index < parameters.len() && parameters[index].allow_uppercase
}

/// A function of the engine.
#[derive(Debug)]
pub struct EngineFunction {
    pub name: String,
    pub parameters: Vec<EngineFunctionParameter>,
    /// The type that the passthrough parameters resolve to must be numeric.
    pub number_passthrough: bool,
    /// Only the last argument decides the passthrough type.
    pub passthrough_last: bool,
    /// The function compares its arguments.
    pub inequality: bool,
    pub return_type: ValueType,
    pub availability: EngineAvailability,
}

impl EngineFunction {
    /// The name of the function.
    pub fn get_name(&self) -> (r: &str)
        ensures
            r@ == self.name@,
    {
        self.name.as_str()
    }

    /// The declared return type.
    pub fn get_return_type(&self) -> (r: ValueType)
        ensures
            r == self.return_type,
    {
        self.return_type
    }

    /// The number of declared parameters.
    pub fn get_total_parameter_count(&self) -> (r: usize)
        ensures
            r == self.parameters@.len(),
    {
        self.parameters.len()
    }

    /// The smallest number of arguments that a call may have: the number of
    /// parameters before the first optional one.
    pub fn get_minimum_parameter_count(&self) -> (r: usize)
        ensures
            r == required_count(self.parameters@),
    {
        let n: usize = self.parameters.len();
        let mut i: usize = 0;
        assert(self.parameters@.subrange(0, n as int) =~= self.parameters@);
        while i < n && !self.parameters[i].optional
            invariant
                i <= n,
                n == self.parameters@.len(),
                required_count(self.parameters@) == i + required_count(
                    self.parameters@.subrange(i as int, n as int),
                ),
            decreases n - i,
        {
            proof {
                let rest = self.parameters@.subrange(i as int, n as int);
                assert(rest.drop_first() =~= self.parameters@.subrange(i + 1, n as int));
            }
            i += 1;
        }
        i
    }

    /// The type expected of the argument at a position, or `None` where the
    /// function takes no argument there.
    pub fn get_type_of_parameter(&self, index: usize) -> (r: Option<ValueType>)
        ensures
            r == expected_at(self.parameters@, index as int),
    {
        let n: usize = self.parameters.len();
        if index < n {
            Some(self.parameters[index].value_type)
        } else if n > 0 && self.parameters[n - 1].many {
            Some(self.parameters[n - 1].value_type)
        } else {
            None
        }
    }

    /// Whether the passthrough type must be numeric.
    pub fn is_number_passthrough(&self) -> (r: bool)
        ensures
            r == self.number_passthrough,
    {
        self.number_passthrough
    }

    /// Whether only the last argument decides the passthrough type.
    pub fn is_passthrough_last(&self) -> (r: bool)
        ensures
            r == self.passthrough_last,
    {
        self.passthrough_last
    }

    /// Whether the function compares its arguments.
    pub fn is_inequality(&self) -> (r: bool)
        ensures
            r == self.inequality,
    {
        self.inequality
    }

    /// Whether the target has the function.
    pub fn supports_target(&self, target: CompileTarget) -> (r: bool)
        ensures
            r == self.availability.index_on(target).is_some(),
    {
        self.availability.supports_target(target)
    }

    /// Always true: this is a function of the engine.
    pub fn is_engine_function(&self) -> (r: bool)
        ensures
            r,
    {
        true
    }

    /// Whether a literal at a position keeps its capitals.
    pub fn is_uppercase_allowed_for_parameter(&self, parameter_index: usize) -> (r: bool)
        ensures
            r == uppercase_at(self.parameters@, parameter_index as int),
    {
        if parameter_index < self.parameters.len() {
            self.parameters[parameter_index].allow_uppercase
        } else {
            false
        }
    }
}

/// A global of the engine.
#[derive(Debug)]
pub struct EngineGlobal {
    pub name: String,
    pub value_type: ValueType,
    pub availability: EngineAvailability,
}

impl EngineGlobal {
    /// The name of the global.
    pub fn get_name(&self) -> (r: &str)
        ensures
            r@ == self.name@,
    {
        self.name.as_str()
    }

    /// The type of the global.
    pub fn get_value_type(&self) -> (r: ValueType)
        ensures
            r == self.value_type,
    {
        self.value_type
    }

    /// Whether the target has the global.
    pub fn supports_target(&self, target: CompileTarget) -> (r: bool)
        ensures
            r == self.availability.index_on(target).is_some(),
    {
        self.availability.supports_target(target)
    }

    /// Always true: this is a global of the engine.
    pub fn is_engine_global(&self) -> (r: bool)
        ensures
            r,
    {
        true
    }
}

/// The last position before `end` whose function has the name and exists on
/// the target, or `None` where there is none.
pub open spec fn engine_function_position(
    functions: Seq<EngineFunction>,
    target: CompileTarget,
    name: Seq<char>,
    end: int,
) -> Option<int>
    decreases end,
{
    if end <= 0 || end > functions.len() {
        None
    } else if functions[end - 1].name@ == name && functions[end - 1].availability.index_on(
        target,
    ).is_some() {
        Some(end - 1)
    } else {
        engine_function_position(functions, target, name, end - 1)
    }
}

/// The last position before `end` whose global has the name and exists on
/// the target, or `None` where there is none.
pub open spec fn engine_global_position(
    globals: Seq<EngineGlobal>,
    target: CompileTarget,
    name: Seq<char>,
    end: int,
) -> Option<int>
    decreases end,
{
    if end <= 0 || end > globals.len() {
        None
    } else if globals[end - 1].name@ == name && globals[end - 1].availability.index_on(
        target,
    ).is_some() {
        Some(end - 1)
    } else {
        engine_global_position(globals, target, name, end - 1)
    }
}

/// The positions below `end` of the functions that exist on the target, in
/// order.
pub open spec fn visible_functions(
    functions: Seq<EngineFunction>,
    target: CompileTarget,
    end: int,
) -> Seq<usize>
    decreases end,
{
    if end <= 0 || end > functions.len() {
        Seq::empty()
    } else if functions[end - 1].availability.index_on(target).is_some() {
        visible_functions(functions, target, end - 1).push((end - 1) as usize)
    } else {
        visible_functions(functions, target, end - 1)
    }
}

/// The positions below `end` of the globals that exist on the target, in
/// order.
pub open spec fn visible_globals(
    globals: Seq<EngineGlobal>,
    target: CompileTarget,
    end: int,
) -> Seq<usize>
    decreases end,
{
    if end <= 0 || end > globals.len() {
        Seq::empty()
    } else if globals[end - 1].availability.index_on(target).is_some() {
        visible_globals(globals, target, end - 1).push((end - 1) as usize)
    } else {
        visible_globals(globals, target, end - 1)
    }
}

/// The functions and globals of an engine family.
#[derive(Debug)]
pub struct Definitions {
    pub functions: Vec<EngineFunction>,
    pub globals: Vec<EngineGlobal>,
}

impl Definitions {
    /// A catalog of the given functions and globals.
    pub fn new(functions: Vec<EngineFunction>, globals: Vec<EngineGlobal>) -> (r: Definitions)
        ensures
            r.functions == functions,
            r.globals == globals,
    {
        Definitions { functions, globals }
    }

    /// The function that a name stands for on a target: the last of that
    /// name that the target has.
    pub fn find_function(&self, target: CompileTarget, name: &str) -> (r: Option<usize>)
        ensures
            match r {
                Some(i) => engine_function_position(
                    self.functions@,
                    target,
                    name@,
                    self.functions@.len() as int,
                ) == Some(i as int) && i < self.functions@.len(),
                None => engine_function_position(
                    self.functions@,
                    target,
                    name@,
                    self.functions@.len() as int,
                ) is None,
            },
    {
        let mut end: usize = self.functions.len();
        while end > 0
            invariant
                end <= self.functions@.len(),
                engine_function_position(
                    self.functions@,
                    target,
                    name@,
                    self.functions@.len() as int,
                ) == engine_function_position(self.functions@, target, name@, end as int),
            decreases end,
        {
            let f = &self.functions[end - 1];
            if str_equal(f.name.as_str(), name) && f.supports_target(target) {
                return Some(end - 1);
            }
            end -= 1;
        }
        None
    }

    /// The global that a name stands for on a target: the last of that name
    /// that the target has.
    pub fn find_global(&self, target: CompileTarget, name: &str) -> (r: Option<usize>)
        ensures
            match r {
                Some(i) => engine_global_position(
                    self.globals@,
                    target,
                    name@,
                    self.globals@.len() as int,
                ) == Some(i as int) && i < self.globals@.len(),
                None => engine_global_position(
                    self.globals@,
                    target,
                    name@,
                    self.globals@.len() as int,
                ) is None,
            },
    {
        let mut end: usize = self.globals.len();
        while end > 0
            invariant
                end <= self.globals@.len(),
                engine_global_position(self.globals@, target, name@, self.globals@.len() as int)
                    == engine_global_position(self.globals@, target, name@, end as int),
            decreases end,
        {
            let g = &self.globals[end - 1];
            if str_equal(g.name.as_str(), name) && g.supports_target(target) {
                return Some(end - 1);
            }
            end -= 1;
        }
        None
    }

    /// The positions of the functions and of the globals that a target has,
    /// each list in the order of the catalog.
    pub fn all_functions_and_globals_for_target(&self, target: CompileTarget) -> (r: (
        Vec<usize>,
        Vec<usize>,
    ))
        ensures
            r.0@ == visible_functions(self.functions@, target, self.functions@.len() as int),
            r.1@ == visible_globals(self.globals@, target, self.globals@.len() as int),
    {
        let mut functions: Vec<usize> = Vec::new();
        let mut globals: Vec<usize> = Vec::new();
        let mut i: usize = 0;
        while i < self.functions.len()
            invariant
                i <= self.functions@.len(),
                functions@ == visible_functions(self.functions@, target, i as int),
            decreases self.functions@.len() - i,
        {
            if self.functions[i].supports_target(target) {
                functions.push(i);
            }
            i += 1;
        }
        let mut j: usize = 0;
        while j < self.globals.len()
            invariant
                j <= self.globals@.len(),
                globals@ == visible_globals(self.globals@, target, j as int),
            decreases self.globals@.len() - j,
        {
            if self.globals[j].supports_target(target) {
                globals.push(j);
            }
            j += 1;
        }
        (functions, globals)
    }
}

} // verus!
