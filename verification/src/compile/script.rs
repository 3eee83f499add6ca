//! What a script defines: scripts, their parameters, and globals.

use crate::compile::node::Node;
use crate::compile::node::NodeModel;
use crate::text::str_equal;
use crate::token::Token;
use crate::token::TokenModel;
use crate::types::CompileTarget;
use crate::types::ScriptType;
use crate::value_type::ValueType;
use vstd::prelude::*;

verus! {

/// A parameter of a script. Inside the script's body it is a local variable.
#[derive(Debug)]
pub struct ScriptParameter {
    pub name: String,
    pub value_type: ValueType,
    /// The token of the parameter's name.
    pub original_token: Token,
}

/// The value of a `ScriptParameter`.
pub struct ScriptParameterModel {
    pub name: Seq<char>,
    pub value_type: ValueType,
    pub original_token: TokenModel,
}

impl View for ScriptParameter {
    type V = ScriptParameterModel;

    open spec fn view(&self) -> ScriptParameterModel {
        ScriptParameterModel {
            name: self.name@,
            value_type: self.value_type,
            original_token: self.original_token@,
        }
    }
}

/// The values of a list of parameters.
pub open spec fn parameters_view(s: Seq<ScriptParameter>) -> Seq<ScriptParameterModel> {
    Seq::new(s.len(), |i: int| s[i]@)
}

impl ScriptParameter {
    /// The name of the parameter.
    pub fn get_name(&self) -> (r: &str)
        ensures
            r@ == self@.name,
    {
        self.name.as_str()
    }

    /// The type of the parameter.
    pub fn get_value_type(&self) -> (r: ValueType)
        ensures
            r == self@.value_type,
    {
        self.value_type
    }

    /// Always true: a parameter exists on every target that has parameters.
    pub fn supports_target(&self, _target: CompileTarget) -> (r: bool)
        ensures
            r,
    {
        true
    }
}

/// A function that the script file defines.
#[derive(Debug)]
pub struct Script {
    pub name: String,
    pub return_type: ValueType,
    pub script_type: ScriptType,
    /// The block that defines the script.
    pub original_token: Token,
    /// The body, once it is analyzed.
    pub node: Node,
    pub parameters: Vec<ScriptParameter>,
}

/// The value of a `Script`.
pub struct ScriptModel {
    pub name: Seq<char>,
    pub return_type: ValueType,
    pub script_type: ScriptType,
    pub original_token: TokenModel,
    pub node: NodeModel,
    pub parameters: Seq<ScriptParameterModel>,
}

impl View for Script {
    type V = ScriptModel;

    open spec fn view(&self) -> ScriptModel {
        ScriptModel {
            name: self.name@,
            return_type: self.return_type,
            script_type: self.script_type,
            original_token: self.original_token@,
            node: self.node@,
            parameters: parameters_view(self.parameters@),
        }
    }
}

/// The values of a list of scripts.
pub open spec fn scripts_view(s: Seq<Script>) -> Seq<ScriptModel> {
    Seq::new(s.len(), |i: int| s[i]@)
}

/// The type that a script expects of the argument at a position.
pub open spec fn script_expected_at(parameters: Seq<ScriptParameterModel>, index: int) -> Option<
    ValueType,
> {
    if 0 <= index < parameters.len() {
        Some(parameters[index].value_type)
    } else {
        None
    }
}

impl Script {
    /// The name of the script.
    pub fn get_name(&self) -> (r: &str)
        ensures
            r@ == self@.name,
    {
        self.name.as_str()
    }

    /// The declared return type.
    pub fn get_return_type(&self) -> (r: ValueType)
        ensures
            r == self@.return_type,
    {
        self.return_type
    }

    /// Always true: a script exists on every target.
    pub fn supports_target(&self, _target: CompileTarget) -> (r: bool)
        ensures
            r,
    {
        true
    }

    /// The number of declared parameters.
    pub fn get_total_parameter_count(&self) -> (r: usize)
        ensures
            r == self@.parameters.len(),
    {
        self.parameters.len()
    }

    /// The type expected of the argument at a position, or `None` where the
    /// script takes no argument there.
    pub fn get_type_of_parameter(&self, index: usize) -> (r: Option<ValueType>)
        ensures
            r == script_expected_at(self@.parameters, index as int),
    {
        if index < self.parameters.len() {
            Some(self.parameters[index].value_type)
        } else {
            None
        }
    }
}

/// A variable that the script file defines.
#[derive(Debug)]
pub struct Global {
    pub name: String,
    pub value_type: ValueType,
    /// The block that defines the global.
    pub original_token: Token,
    /// The initializer, once it is analyzed.
    pub node: Node,
}

/// The value of a `Global`.
pub struct GlobalModel {
    pub name: Seq<char>,
    pub value_type: ValueType,
    pub original_token: TokenModel,
    pub node: NodeModel,
}

impl View for Global {
    type V = GlobalModel;

    open spec fn view(&self) -> GlobalModel {
        GlobalModel {
            name: self.name@,
            value_type: self.value_type,
            original_token: self.original_token@,
            node: self.node@,
        }
    }
}

/// The values of a list of globals.
pub open spec fn globals_view(s: Seq<Global>) -> Seq<GlobalModel> {
    Seq::new(s.len(), |i: int| s[i]@)
}

impl Global {
    /// The name of the global.
    pub fn get_name(&self) -> (r: &str)
        ensures
            r@ == self@.name,
    {
        self.name.as_str()
    }

    /// The type of the global.
    pub fn get_value_type(&self) -> (r: ValueType)
        ensures
            r == self@.value_type,
    {
        self.value_type
    }

    /// Always true: a global of the file exists on every target.
    pub fn supports_target(&self, _target: CompileTarget) -> (r: bool)
        ensures
            r,
    {
        true
    }
}

/// The first position at or after `from` whose parameter has the name, or
/// `None`.
pub open spec fn parameter_position_from(
    name: Seq<char>,
    parameters: Seq<ScriptParameterModel>,
    from: int,
) -> Option<int>
    decreases parameters.len() - from,
{
    if from < 0 || from >= parameters.len() {
        None
    } else if parameters[from].name == name {
        Some(from)
    } else {
        parameter_position_from(name, parameters, from + 1)
    }
}

/// The position of the first parameter with the name, or `None`.
pub open spec fn parameter_position(name: Seq<char>, parameters: Seq<ScriptParameterModel>) -> Option<
    int,
> {
    parameter_position_from(name, parameters, 0)
}

/// A parameter position is a position of the list, its parameter has the
/// name, and no earlier parameter from `from` on has it.
pub proof fn lemma_parameter_position(
    name: Seq<char>,
    parameters: Seq<ScriptParameterModel>,
    from: int,
)
    requires
        0 <= from,
    ensures
        match parameter_position_from(name, parameters, from) {
            Some(i) => from <= i < parameters.len() && parameters[i].name == name && forall|j: int|
                from <= j < i ==> parameters[j].name != name,
            None => forall|j: int| from <= j < parameters.len() ==> parameters[j].name != name,
        },
    decreases parameters.len() - from,
{
    if from < parameters.len() && parameters[from].name != name {
        lemma_parameter_position(name, parameters, from + 1);
    }
}

/// The position of the first parameter with the name.
pub fn parameter_index(name: &str, parameters: &Vec<ScriptParameter>) -> (r: Option<usize>)
    ensures
        match r {
            Some(i) => parameter_position(name@, parameters_view(parameters@)) == Some(i as int)
                && i < parameters@.len(),
            None => parameter_position(name@, parameters_view(parameters@)) is None,
        },
{
    let ghost all = parameters_view(parameters@);
    let mut i: usize = 0;
    while i < parameters.len()
        invariant
            i <= parameters@.len(),
            all == parameters_view(parameters@),
            parameter_position(name@, all) == parameter_position_from(name@, all, i as int),
        decreases parameters@.len() - i,
    {
        if str_equal(parameters[i].name.as_str(), name) {
            assert(all[i as int].name == name@);
            return Some(i);
        }
        assert(all[i as int].name != name@);
        i += 1;
    }
    None
}

} // verus!
