//! The names that an expression may use: the functions and globals of the
//! engine that the target has, the scripts and globals of the file, which
//! come first where a name is defined twice, and the parameters of the
//! enclosing script.

use crate::compile::script::globals_view;
use crate::compile::script::parameters_view;
use crate::compile::script::script_expected_at;
use crate::compile::script::scripts_view;
use crate::compile::script::Global;
use crate::compile::script::GlobalModel;
use crate::compile::script::Script;
use crate::compile::script::ScriptModel;
use crate::compile::script::ScriptParameter;
use crate::compile::script::ScriptParameterModel;
use crate::definitions::engine_function_position;
use crate::definitions::engine_global_position;
use crate::definitions::expected_at;
use crate::definitions::required_count;
use crate::definitions::uppercase_at;
use crate::definitions::Definitions;
use crate::definitions::EngineFunction;
use crate::definitions::EngineGlobal;
use crate::text::str_equal;
use crate::types::CompileTarget;
use crate::value_type::ValueType;
use vstd::prelude::*;

verus! {

/// The names that an expression may use.
pub struct Environment<'a> {
    pub target: CompileTarget,
    pub definitions: &'a Definitions,
    pub scripts: &'a Vec<Script>,
    pub globals: &'a Vec<Global>,
    pub locals: &'a Vec<ScriptParameter>,
}

/// The value of an `Environment`.
pub struct Scope {
    pub target: CompileTarget,
    pub functions: Seq<EngineFunction>,
    pub engine_globals: Seq<EngineGlobal>,
    pub scripts: Seq<ScriptModel>,
    pub globals: Seq<GlobalModel>,
    pub locals: Seq<ScriptParameterModel>,
}

impl<'a> View for Environment<'a> {
    type V = Scope;

    open spec fn view(&self) -> Scope {
        Scope {
            target: self.target,
            functions: self.definitions.functions@,
            engine_globals: self.definitions.globals@,
            scripts: scripts_view(self.scripts@),
            globals: globals_view(self.globals@),
            locals: parameters_view(self.locals@),
        }
    }
}

/// Something that can be called: a function of the engine or a script of
/// the file, each by its position in its list.
#[derive(Copy, Clone, PartialEq, Eq, Structural, Debug)]
pub enum CallableFunction {
    Engine(usize),
    Script(usize),
}

/// Something that can be read: a global of the engine or a global of the
/// file, each by its position in its list.
#[derive(Copy, Clone, PartialEq, Eq, Structural, Debug)]
pub enum CallableGlobal {
    Engine(usize),
    User(usize),
}

/// The last position before `end` whose script has the name, or `None`.
pub open spec fn script_position(scripts: Seq<ScriptModel>, name: Seq<char>, end: int) -> Option<
    int,
>
    decreases end,
{
    if end <= 0 || end > scripts.len() {
        None
    } else if scripts[end - 1].name == name {
        Some(end - 1)
    } else {
        script_position(scripts, name, end - 1)
    }
}

/// The last position before `end` whose global has the name, or `None`.
pub open spec fn global_position(globals: Seq<GlobalModel>, name: Seq<char>, end: int) -> Option<
    int,
>
    decreases end,
{
    if end <= 0 || end > globals.len() {
        None
    } else if globals[end - 1].name == name {
        Some(end - 1)
    } else {
        global_position(globals, name, end - 1)
    }
}

impl Scope {
    /// What a name calls: the last script of that name, or else the last
    /// function of the engine of that name that the target has.
    pub open spec fn function(self, name: Seq<char>) -> Option<CallableFunction> {
        match script_position(self.scripts, name, self.scripts.len() as int) {
            Some(i) => Some(CallableFunction::Script(i as usize)),
            None => match engine_function_position(
                self.functions,
                self.target,
                name,
                self.functions.len() as int,
            ) {
                Some(i) => Some(CallableFunction::Engine(i as usize)),
                None => None,
            },
        }
    }

    /// What a name reads: the last global of the file of that name, or else
    /// the last global of the engine of that name that the target has.
    pub open spec fn global(self, name: Seq<char>) -> Option<CallableGlobal> {
        match global_position(self.globals, name, self.globals.len() as int) {
            Some(i) => Some(CallableGlobal::User(i as usize)),
            None => match engine_global_position(
                self.engine_globals,
                self.target,
                name,
                self.engine_globals.len() as int,
            ) {
                Some(i) => Some(CallableGlobal::Engine(i as usize)),
                None => None,
            },
        }
    }

    /// The type of a global.
    pub open spec fn global_type(self, g: CallableGlobal) -> ValueType {
        match g {
            CallableGlobal::Engine(i) => self.engine_globals[i as int].value_type,
            CallableGlobal::User(i) => self.globals[i as int].value_type,
        }
    }

    /// Whether the position of a callable lies in its list.
    pub open spec fn has(self, f: CallableFunction) -> bool {
        match f {
            CallableFunction::Engine(i) => i < self.functions.len(),
            CallableFunction::Script(i) => i < self.scripts.len(),
        }
    }

    /// Whether the position of a global lies in its list.
    pub open spec fn has_global(self, g: CallableGlobal) -> bool {
        match g {
            CallableGlobal::Engine(i) => i < self.engine_globals.len(),
            CallableGlobal::User(i) => i < self.globals.len(),
        }
    }

    /// The declared return type of a callable.
    pub open spec fn return_type(self, f: CallableFunction) -> ValueType {
        match f {
            CallableFunction::Engine(i) => self.functions[i as int].return_type,
            CallableFunction::Script(i) => self.scripts[i as int].return_type,
        }
    }

    /// The number of declared parameters.
    pub open spec fn total_count(self, f: CallableFunction) -> nat {
        match f {
            CallableFunction::Engine(i) => self.functions[i as int].parameters@.len(),
            CallableFunction::Script(i) => self.scripts[i as int].parameters.len(),
        }
    }

    /// The smallest number of arguments that a call may have.
    pub open spec fn minimum_count(self, f: CallableFunction) -> nat {
        match f {
            CallableFunction::Engine(i) => required_count(self.functions[i as int].parameters@),
            CallableFunction::Script(i) => self.scripts[i as int].parameters.len(),
        }
    }

    /// The type expected of the argument at a position, or `None` where the
    /// callable takes no argument there.
    pub open spec fn expected_type(self, f: CallableFunction, index: int) -> Option<ValueType> {
        match f {
            CallableFunction::Engine(i) => expected_at(self.functions[i as int].parameters@, index),
            CallableFunction::Script(i) => script_expected_at(
                self.scripts[i as int].parameters,
                index,
            ),
        }
    }

    /// Whether the passthrough type must be numeric.
    pub open spec fn number_passthrough(self, f: CallableFunction) -> bool {
        match f {
            CallableFunction::Engine(i) => self.functions[i as int].number_passthrough,
            CallableFunction::Script(_) => false,
        }
    }

    /// Whether only the last argument decides the passthrough type.
    pub open spec fn passthrough_last(self, f: CallableFunction) -> bool {
        match f {
            CallableFunction::Engine(i) => self.functions[i as int].passthrough_last,
            CallableFunction::Script(_) => false,
        }
    }

    /// Whether the callable compares its arguments.
    pub open spec fn inequality(self, f: CallableFunction) -> bool {
        match f {
            CallableFunction::Engine(i) => self.functions[i as int].inequality,
            CallableFunction::Script(_) => false,
        }
    }

    /// Whether a literal at a position keeps its capitals.
    pub open spec fn uppercase_allowed(self, f: CallableFunction, index: int) -> bool {
        match f {
            CallableFunction::Engine(i) => uppercase_at(self.functions[i as int].parameters@, index),
            CallableFunction::Script(_) => false,
        }
    }
}

impl CallableFunction {
    /// Whether this is a function of the engine.
    pub fn is_engine_function(&self) -> (r: bool)
        ensures
            r == (*self is Engine),
    {
        match self {
            CallableFunction::Engine(_) => true,
            CallableFunction::Script(_) => false,
        }
    }
}

impl CallableGlobal {
    /// Whether this is a global of the engine.
    pub fn is_engine_global(&self) -> (r: bool)
        ensures
            r == (*self is Engine),
    {
        match self {
            CallableGlobal::Engine(_) => true,
            CallableGlobal::User(_) => false,
        }
    }
}

impl<'a> Environment<'a> {
    /// What a name calls.
    pub fn find_function(&self, name: &str) -> (r: Option<CallableFunction>)
        ensures
            r == self@.function(name@),
            r is Some ==> self@.has(r->0),
            match r {
                Some(CallableFunction::Script(i)) => script_position(
                    self@.scripts,
                    name@,
                    self@.scripts.len() as int,
                ) == Some(i as int),
                _ => script_position(self@.scripts, name@, self@.scripts.len() as int) is None,
            },
    {
        let mut end: usize = self.scripts.len();
        while end > 0
            invariant
                end <= self.scripts@.len(),
                script_position(self@.scripts, name@, self@.scripts.len() as int)
                    == script_position(self@.scripts, name@, end as int),
            decreases end,
        {
            assert(self@.scripts[end - 1] == self.scripts@[end - 1]@);
            if str_equal(self.scripts[end - 1].name.as_str(), name) {
                return Some(CallableFunction::Script(end - 1));
            }
            end -= 1;
        }
        match self.definitions.find_function(self.target, name) {
            Some(i) => Some(CallableFunction::Engine(i)),
            None => None,
        }
    }

    /// What a name reads.
    pub fn find_global(&self, name: &str) -> (r: Option<CallableGlobal>)
        ensures
            r == self@.global(name@),
            r is Some ==> self@.has_global(r->0),
            match r {
                Some(CallableGlobal::User(i)) => global_position(
                    self@.globals,
                    name@,
                    self@.globals.len() as int,
                ) == Some(i as int),
                _ => global_position(self@.globals, name@, self@.globals.len() as int) is None,
            },
    {
        let mut end: usize = self.globals.len();
        while end > 0
            invariant
                end <= self.globals@.len(),
                global_position(self@.globals, name@, self@.globals.len() as int)
                    == global_position(self@.globals, name@, end as int),
            decreases end,
        {
            assert(self@.globals[end - 1] == self.globals@[end - 1]@);
            if str_equal(self.globals[end - 1].name.as_str(), name) {
                return Some(CallableGlobal::User(end - 1));
            }
            end -= 1;
        }
        match self.definitions.find_global(self.target, name) {
            Some(i) => Some(CallableGlobal::Engine(i)),
            None => None,
        }
    }

    /// The type of a global.
    pub(crate) fn get_value_type(&self, g: CallableGlobal) -> (r: ValueType)
        requires
            self@.has_global(g),
        ensures
            r == self@.global_type(g),
    {
        match g {
            CallableGlobal::Engine(i) => self.definitions.globals[i].value_type,
            CallableGlobal::User(i) => {
                assert(self@.globals[i as int] == self.globals@[i as int]@);
                self.globals[i].value_type
            },
        }
    }

    /// The declared return type of a callable.
    pub(crate) fn get_return_type(&self, f: CallableFunction) -> (r: ValueType)
        requires
            self@.has(f),
        ensures
            r == self@.return_type(f),
    {
        match f {
            CallableFunction::Engine(i) => self.definitions.functions[i].return_type,
            CallableFunction::Script(i) => {
                assert(self@.scripts[i as int] == self.scripts@[i as int]@);
                self.scripts[i].return_type
            },
        }
    }

    /// The number of declared parameters.
    pub(crate) fn get_total_parameter_count(&self, f: CallableFunction) -> (r: usize)
        requires
            self@.has(f),
        ensures
            r == self@.total_count(f),
    {
        match f {
            CallableFunction::Engine(i) => self.definitions.functions[i].get_total_parameter_count(),
            CallableFunction::Script(i) => {
                assert(self@.scripts[i as int] == self.scripts@[i as int]@);
                self.scripts[i].get_total_parameter_count()
            },
        }
    }

    /// The smallest number of arguments that a call may have.
    pub(crate) fn get_minimum_parameter_count(&self, f: CallableFunction) -> (r: usize)
        requires
            self@.has(f),
        ensures
            r == self@.minimum_count(f),
    {
        match f {
            CallableFunction::Engine(i) => self.definitions.functions[i].get_minimum_parameter_count(),
            CallableFunction::Script(i) => {
                assert(self@.scripts[i as int] == self.scripts@[i as int]@);
                self.scripts[i].get_total_parameter_count()
            },
        }
    }

    /// The type expected of the argument at a position.
    pub(crate) fn get_type_of_parameter(&self, f: CallableFunction, index: usize) -> (r: Option<ValueType>)
        requires
            self@.has(f),
        ensures
            r == self@.expected_type(f, index as int),
    {
        match f {
            CallableFunction::Engine(i) => self.definitions.functions[i].get_type_of_parameter(index),
            CallableFunction::Script(i) => {
                assert(self@.scripts[i as int] == self.scripts@[i as int]@);
                self.scripts[i].get_type_of_parameter(index)
            },
        }
    }

    /// Whether the passthrough type must be numeric.
    pub(crate) fn is_number_passthrough(&self, f: CallableFunction) -> (r: bool)
        requires
            self@.has(f),
        ensures
            r == self@.number_passthrough(f),
    {
        match f {
            CallableFunction::Engine(i) => self.definitions.functions[i].number_passthrough,
            CallableFunction::Script(_) => false,
        }
    }

    /// Whether only the last argument decides the passthrough type.
    pub(crate) fn is_passthrough_last(&self, f: CallableFunction) -> (r: bool)
        requires
            self@.has(f),
        ensures
            r == self@.passthrough_last(f),
    {
        match f {
            CallableFunction::Engine(i) => self.definitions.functions[i].passthrough_last,
            CallableFunction::Script(_) => false,
        }
    }

    /// Whether the callable compares its arguments.
    pub(crate) fn is_inequality(&self, f: CallableFunction) -> (r: bool)
        requires
            self@.has(f),
        ensures
            r == self@.inequality(f),
    {
        match f {
            CallableFunction::Engine(i) => self.definitions.functions[i].inequality,
            CallableFunction::Script(_) => false,
        }
    }

    /// Whether a literal at a position keeps its capitals.
    pub(crate) fn is_uppercase_allowed_for_parameter(&self, f: CallableFunction, index: usize) -> (r: bool)
        requires
            self@.has(f),
        ensures
            r == self@.uppercase_allowed(f, index as int),
    {
        match f {
            CallableFunction::Engine(i) => self.definitions.functions[i].is_uppercase_allowed_for_parameter(
                index,
            ),
            CallableFunction::Script(_) => false,
        }
    }
}

} // verus!
