//! The types of values, parameters, results and globals.

use crate::text::str_equal;
use vstd::prelude::*;

verus! {

/// The type of a value.
#[derive(Copy, Clone, PartialEq, Eq, Structural, Debug)]
pub enum ValueType {
    /// Not analyzed yet.
    Unparsed,
    /// Marks a form that is rewritten before analysis.
    SpecialForm,
    /// The name node that follows a call in the node array.
    FunctionName,
    /// Stands for a type that the call site decides.
    Passthrough,
    Void,
    Boolean,
    Real,
    Short,
    Long,
    String,
    Script,
    TriggerVolume,
    CutsceneFlag,
    CutsceneCameraPoint,
    CutsceneTitle,
    CutsceneRecording,
    DeviceGroup,
    Ai,
    AiCommandList,
    StartingProfile,
    Conversation,
    Navpoint,
    HudMessage,
    ObjectList,
    Sound,
    Effect,
    Damage,
    LoopingSound,
    AnimationGraph,
    ActorVariant,
    DamageEffect,
    ObjectDefinition,
    GameDifficulty,
    Team,
    AiDefaultState,
    ActorType,
    HudCorner,
    Object,
    Unit,
    Vehicle,
    Weapon,
    Device,
    Scenery,
    ObjectName,
    UnitName,
    VehicleName,
    WeaponName,
    DeviceName,
    SceneryName,
}

impl Default for ValueType {
    fn default() -> (r: ValueType)
        ensures
            r == ValueType::Unparsed,
    {
        ValueType::Unparsed
    }
}

impl ValueType {
    /// True for the three numeric types.
    pub open spec fn is_numeric(self) -> bool {
        self == ValueType::Real || self == ValueType::Short || self == ValueType::Long
    }

    /// True for the types that stand for an object in the world.
    pub open spec fn is_object_like(self) -> bool {
        self == ValueType::ObjectName || self == ValueType::Object || self == ValueType::Unit
            || self == ValueType::Vehicle || self == ValueType::Weapon || self
            == ValueType::Scenery || self == ValueType::Device
    }

    /// Whether a value of this type may stand where `to` is expected: always
    /// for the same type and from `Passthrough`; between the numeric types
    /// but for `Short` to `Long`; from `Vehicle` to `Unit`; and from the
    /// object-like types to `Object` and `ObjectList`.
    pub open spec fn converts_to(self, to: ValueType) -> bool {
        ||| self == to
        ||| self == ValueType::Passthrough
        ||| self == ValueType::Real && (to == ValueType::Short || to == ValueType::Long)
        ||| self == ValueType::Short && to == ValueType::Real
        ||| self == ValueType::Long && (to == ValueType::Short || to == ValueType::Real)
        ||| self == ValueType::Vehicle && to == ValueType::Unit
        ||| self.is_object_like() && (to == ValueType::Object || to == ValueType::ObjectList)
    }

    /// Whether a value of this type may stand where `to` is expected.
    pub fn can_convert_to(&self, to: ValueType) -> (r: bool)
        ensures
            r == self.converts_to(to),
    {
        let from = *self;
        if from == to || from == ValueType::Passthrough {
            return true;
        }
        match from {
            ValueType::Real => to == ValueType::Long || to == ValueType::Short,
            ValueType::Short => to == ValueType::Real,
            ValueType::Long => to == ValueType::Short || to == ValueType::Real,
            ValueType::Vehicle => to == ValueType::Unit || to == ValueType::Object || to
                == ValueType::ObjectList,
            ValueType::ObjectName
            | ValueType::Object
            | ValueType::Unit
            | ValueType::Weapon
            | ValueType::Scenery
            | ValueType::Device => to == ValueType::Object || to == ValueType::ObjectList,
            _ => false,
        }
    }

    /// The name of the type, with spaces between its words.
    pub open spec fn name(self) -> Seq<char> {
        match self {
            ValueType::Unparsed => "unparsed"@,
            ValueType::SpecialForm => "special form"@,
            ValueType::FunctionName => "function name"@,
            ValueType::Passthrough => "passthrough"@,
            ValueType::Void => "void"@,
            ValueType::Boolean => "boolean"@,
            ValueType::Real => "real"@,
            ValueType::Short => "short"@,
            ValueType::Long => "long"@,
            ValueType::String => "string"@,
            ValueType::Script => "script"@,
            ValueType::TriggerVolume => "trigger volume"@,
            ValueType::CutsceneFlag => "cutscene flag"@,
            ValueType::CutsceneCameraPoint => "cutscene camera point"@,
            ValueType::CutsceneTitle => "cutscene title"@,
            ValueType::CutsceneRecording => "cutscene recording"@,
            ValueType::DeviceGroup => "device group"@,
            ValueType::Ai => "ai"@,
            ValueType::AiCommandList => "ai command list"@,
            ValueType::StartingProfile => "starting profile"@,
            ValueType::Conversation => "conversation"@,
            ValueType::Navpoint => "navpoint"@,
            ValueType::HudMessage => "hud message"@,
            ValueType::ObjectList => "object list"@,
            ValueType::Sound => "sound"@,
            ValueType::Effect => "effect"@,
            ValueType::Damage => "damage"@,
            ValueType::LoopingSound => "looping sound"@,
            ValueType::AnimationGraph => "animation graph"@,
            ValueType::ActorVariant => "actor variant"@,
            ValueType::DamageEffect => "damage effect"@,
            ValueType::ObjectDefinition => "object definition"@,
            ValueType::GameDifficulty => "game difficulty"@,
            ValueType::Team => "team"@,
            ValueType::AiDefaultState => "ai default state"@,
            ValueType::ActorType => "actor type"@,
            ValueType::HudCorner => "hud corner"@,
            ValueType::Object => "object"@,
            ValueType::Unit => "unit"@,
            ValueType::Vehicle => "vehicle"@,
            ValueType::Weapon => "weapon"@,
            ValueType::Device => "device"@,
            ValueType::Scenery => "scenery"@,
            ValueType::ObjectName => "object name"@,
            ValueType::UnitName => "unit name"@,
            ValueType::VehicleName => "vehicle name"@,
            ValueType::WeaponName => "weapon name"@,
            ValueType::DeviceName => "device name"@,
            ValueType::SceneryName => "scenery name"@,
        }
    }

    /// The name of the type, with spaces between its words.
    pub fn as_str(&self) -> (r: &'static str)
        ensures
            r@ == self.name(),
    {
        match *self {
            ValueType::Unparsed => "unparsed",
            ValueType::SpecialForm => "special form",
            ValueType::FunctionName => "function name",
            ValueType::Passthrough => "passthrough",
            ValueType::Void => "void",
            ValueType::Boolean => "boolean",
            ValueType::Real => "real",
            ValueType::Short => "short",
            ValueType::Long => "long",
            ValueType::String => "string",
            ValueType::Script => "script",
            ValueType::TriggerVolume => "trigger volume",
            ValueType::CutsceneFlag => "cutscene flag",
            ValueType::CutsceneCameraPoint => "cutscene camera point",
            ValueType::CutsceneTitle => "cutscene title",
            ValueType::CutsceneRecording => "cutscene recording",
            ValueType::DeviceGroup => "device group",
            ValueType::Ai => "ai",
            ValueType::AiCommandList => "ai command list",
            ValueType::StartingProfile => "starting profile",
            ValueType::Conversation => "conversation",
            ValueType::Navpoint => "navpoint",
            ValueType::HudMessage => "hud message",
            ValueType::ObjectList => "object list",
            ValueType::Sound => "sound",
            ValueType::Effect => "effect",
            ValueType::Damage => "damage",
            ValueType::LoopingSound => "looping sound",
            ValueType::AnimationGraph => "animation graph",
            ValueType::ActorVariant => "actor variant",
            ValueType::DamageEffect => "damage effect",
            ValueType::ObjectDefinition => "object definition",
            ValueType::GameDifficulty => "game difficulty",
            ValueType::Team => "team",
            ValueType::AiDefaultState => "ai default state",
            ValueType::ActorType => "actor type",
            ValueType::HudCorner => "hud corner",
            ValueType::Object => "object",
            ValueType::Unit => "unit",
            ValueType::Vehicle => "vehicle",
            ValueType::Weapon => "weapon",
            ValueType::Device => "device",
            ValueType::Scenery => "scenery",
            ValueType::ObjectName => "object name",
            ValueType::UnitName => "unit name",
            ValueType::VehicleName => "vehicle name",
            ValueType::WeaponName => "weapon name",
            ValueType::DeviceName => "device name",
            ValueType::SceneryName => "scenery name",
        }
    }

    /// The name of the type as a `String`.
    pub fn to_string(&self) -> (r: String)
        ensures
            r@ == self.name(),
    {
        self.as_str().to_owned()
    }

    /// The type that a name with underscores between its words stands for.
    pub open spec fn from_underscore_name(s: Seq<char>) -> Option<ValueType> {
        if s == "unparsed"@ {
            Some(ValueType::Unparsed)
        } else if s == "special_form"@ {
            Some(ValueType::SpecialForm)
        } else if s == "function_name"@ {
            Some(ValueType::FunctionName)
        } else if s == "passthrough"@ {
            Some(ValueType::Passthrough)
        } else if s == "void"@ {
            Some(ValueType::Void)
        } else if s == "boolean"@ {
            Some(ValueType::Boolean)
        } else if s == "real"@ {
            Some(ValueType::Real)
        } else if s == "short"@ {
            Some(ValueType::Short)
        } else if s == "long"@ {
            Some(ValueType::Long)
        } else if s == "string"@ {
            Some(ValueType::String)
        } else if s == "script"@ {
            Some(ValueType::Script)
        } else if s == "trigger_volume"@ {
            Some(ValueType::TriggerVolume)
        } else if s == "cutscene_flag"@ {
            Some(ValueType::CutsceneFlag)
        } else if s == "cutscene_camera_point"@ {
            Some(ValueType::CutsceneCameraPoint)
        } else if s == "cutscene_title"@ {
            Some(ValueType::CutsceneTitle)
        } else if s == "cutscene_recording"@ {
            Some(ValueType::CutsceneRecording)
        } else if s == "device_group"@ {
            Some(ValueType::DeviceGroup)
        } else if s == "ai"@ {
            Some(ValueType::Ai)
        } else if s == "ai_command_list"@ {
            Some(ValueType::AiCommandList)
        } else if s == "starting_profile"@ {
            Some(ValueType::StartingProfile)
        } else if s == "conversation"@ {
            Some(ValueType::Conversation)
        } else if s == "navpoint"@ {
            Some(ValueType::Navpoint)
        } else if s == "hud_message"@ {
            Some(ValueType::HudMessage)
        } else if s == "object_list"@ {
            Some(ValueType::ObjectList)
        } else if s == "sound"@ {
            Some(ValueType::Sound)
        } else if s == "effect"@ {
            Some(ValueType::Effect)
        } else if s == "damage"@ {
            Some(ValueType::Damage)
        } else if s == "looping_sound"@ {
            Some(ValueType::LoopingSound)
        } else if s == "animation_graph"@ {
            Some(ValueType::AnimationGraph)
        } else if s == "actor_variant"@ {
            Some(ValueType::ActorVariant)
        } else if s == "damage_effect"@ {
            Some(ValueType::DamageEffect)
        } else if s == "object_definition"@ {
            Some(ValueType::ObjectDefinition)
        } else if s == "game_difficulty"@ {
            Some(ValueType::GameDifficulty)
        } else if s == "team"@ {
            Some(ValueType::Team)
        } else if s == "ai_default_state"@ {
            Some(ValueType::AiDefaultState)
        } else if s == "actor_type"@ {
            Some(ValueType::ActorType)
        } else if s == "hud_corner"@ {
            Some(ValueType::HudCorner)
        } else if s == "object"@ {
            Some(ValueType::Object)
        } else if s == "unit"@ {
            Some(ValueType::Unit)
        } else if s == "vehicle"@ {
            Some(ValueType::Vehicle)
        } else if s == "weapon"@ {
            Some(ValueType::Weapon)
        } else if s == "device"@ {
            Some(ValueType::Device)
        } else if s == "scenery"@ {
            Some(ValueType::Scenery)
        } else if s == "object_name"@ {
            Some(ValueType::ObjectName)
        } else if s == "unit_name"@ {
            Some(ValueType::UnitName)
        } else if s == "vehicle_name"@ {
            Some(ValueType::VehicleName)
        } else if s == "weapon_name"@ {
            Some(ValueType::WeaponName)
        } else if s == "device_name"@ {
            Some(ValueType::DeviceName)
        } else if s == "scenery_name"@ {
            Some(ValueType::SceneryName)
        } else {
            None
        }
    }

    /// The type that a name with underscores between its words stands for, or
    /// `None` for any other text.
    pub fn from_str_underscore(string: &str) -> (r: Option<ValueType>)
        ensures
            r == Self::from_underscore_name(string@),
    {
        if str_equal(string, "unparsed") {
            Some(ValueType::Unparsed)
        } else if str_equal(string, "special_form") {
            Some(ValueType::SpecialForm)
        } else if str_equal(string, "function_name") {
            Some(ValueType::FunctionName)
        } else if str_equal(string, "passthrough") {
            Some(ValueType::Passthrough)
        } else if str_equal(string, "void") {
            Some(ValueType::Void)
        } else if str_equal(string, "boolean") {
            Some(ValueType::Boolean)
        } else if str_equal(string, "real") {
            Some(ValueType::Real)
        } else if str_equal(string, "short") {
            Some(ValueType::Short)
        } else if str_equal(string, "long") {
            Some(ValueType::Long)
        } else if str_equal(string, "string") {
            Some(ValueType::String)
        } else if str_equal(string, "script") {
            Some(ValueType::Script)
        } else if str_equal(string, "trigger_volume") {
            Some(ValueType::TriggerVolume)
        } else if str_equal(string, "cutscene_flag") {
            Some(ValueType::CutsceneFlag)
        } else if str_equal(string, "cutscene_camera_point") {
            Some(ValueType::CutsceneCameraPoint)
        } else if str_equal(string, "cutscene_title") {
            Some(ValueType::CutsceneTitle)
        } else if str_equal(string, "cutscene_recording") {
            Some(ValueType::CutsceneRecording)
        } else if str_equal(string, "device_group") {
            Some(ValueType::DeviceGroup)
        } else if str_equal(string, "ai") {
            Some(ValueType::Ai)
        } else if str_equal(string, "ai_command_list") {
            Some(ValueType::AiCommandList)
        } else if str_equal(string, "starting_profile") {
            Some(ValueType::StartingProfile)
        } else if str_equal(string, "conversation") {
            Some(ValueType::Conversation)
        } else if str_equal(string, "navpoint") {
            Some(ValueType::Navpoint)
        } else if str_equal(string, "hud_message") {
            Some(ValueType::HudMessage)
        } else if str_equal(string, "object_list") {
            Some(ValueType::ObjectList)
        } else if str_equal(string, "sound") {
            Some(ValueType::Sound)
        } else if str_equal(string, "effect") {
            Some(ValueType::Effect)
        } else if str_equal(string, "damage") {
            Some(ValueType::Damage)
        } else if str_equal(string, "looping_sound") {
            Some(ValueType::LoopingSound)
        } else if str_equal(string, "animation_graph") {
            Some(ValueType::AnimationGraph)
        } else if str_equal(string, "actor_variant") {
            Some(ValueType::ActorVariant)
        } else if str_equal(string, "damage_effect") {
            Some(ValueType::DamageEffect)
        } else if str_equal(string, "object_definition") {
            Some(ValueType::ObjectDefinition)
        } else if str_equal(string, "game_difficulty") {
            Some(ValueType::GameDifficulty)
        } else if str_equal(string, "team") {
            Some(ValueType::Team)
        } else if str_equal(string, "ai_default_state") {
            Some(ValueType::AiDefaultState)
        } else if str_equal(string, "actor_type") {
            Some(ValueType::ActorType)
        } else if str_equal(string, "hud_corner") {
            Some(ValueType::HudCorner)
        } else if str_equal(string, "object") {
            Some(ValueType::Object)
        } else if str_equal(string, "unit") {
            Some(ValueType::Unit)
        } else if str_equal(string, "vehicle") {
            Some(ValueType::Vehicle)
        } else if str_equal(string, "weapon") {
            Some(ValueType::Weapon)
        } else if str_equal(string, "device") {
            Some(ValueType::Device)
        } else if str_equal(string, "scenery") {
            Some(ValueType::Scenery)
        } else if str_equal(string, "object_name") {
            Some(ValueType::ObjectName)
        } else if str_equal(string, "unit_name") {
            Some(ValueType::UnitName)
        } else if str_equal(string, "vehicle_name") {
            Some(ValueType::VehicleName)
        } else if str_equal(string, "weapon_name") {
            Some(ValueType::WeaponName)
        } else if str_equal(string, "device_name") {
            Some(ValueType::DeviceName)
        } else if str_equal(string, "scenery_name") {
            Some(ValueType::SceneryName)
        } else {
            None
        }
    }

    /// The number of the type, counted from zero in the order of declaration.
    pub open spec fn number(self) -> u16 {
        match self {
            ValueType::Unparsed => 0,
            ValueType::SpecialForm => 1,
            ValueType::FunctionName => 2,
            ValueType::Passthrough => 3,
            ValueType::Void => 4,
            ValueType::Boolean => 5,
            ValueType::Real => 6,
            ValueType::Short => 7,
            ValueType::Long => 8,
            ValueType::String => 9,
            ValueType::Script => 10,
            ValueType::TriggerVolume => 11,
            ValueType::CutsceneFlag => 12,
            ValueType::CutsceneCameraPoint => 13,
            ValueType::CutsceneTitle => 14,
            ValueType::CutsceneRecording => 15,
            ValueType::DeviceGroup => 16,
            ValueType::Ai => 17,
            ValueType::AiCommandList => 18,
            ValueType::StartingProfile => 19,
            ValueType::Conversation => 20,
            ValueType::Navpoint => 21,
            ValueType::HudMessage => 22,
            ValueType::ObjectList => 23,
            ValueType::Sound => 24,
            ValueType::Effect => 25,
            ValueType::Damage => 26,
            ValueType::LoopingSound => 27,
            ValueType::AnimationGraph => 28,
            ValueType::ActorVariant => 29,
            ValueType::DamageEffect => 30,
            ValueType::ObjectDefinition => 31,
            ValueType::GameDifficulty => 32,
            ValueType::Team => 33,
            ValueType::AiDefaultState => 34,
            ValueType::ActorType => 35,
            ValueType::HudCorner => 36,
            ValueType::Object => 37,
            ValueType::Unit => 38,
            ValueType::Vehicle => 39,
            ValueType::Weapon => 40,
            ValueType::Device => 41,
            ValueType::Scenery => 42,
            ValueType::ObjectName => 43,
            ValueType::UnitName => 44,
            ValueType::VehicleName => 45,
            ValueType::WeaponName => 46,
            ValueType::DeviceName => 47,
            ValueType::SceneryName => 48,
        }
    }

    /// The number of the type, counted from zero in the order of declaration.
    pub fn as_int(&self) -> (r: u16)
        ensures
            r == self.number(),
            r < 49,
    {
        match *self {
            ValueType::Unparsed => 0,
            ValueType::SpecialForm => 1,
            ValueType::FunctionName => 2,
            ValueType::Passthrough => 3,
            ValueType::Void => 4,
            ValueType::Boolean => 5,
            ValueType::Real => 6,
            ValueType::Short => 7,
            ValueType::Long => 8,
            ValueType::String => 9,
            ValueType::Script => 10,
            ValueType::TriggerVolume => 11,
            ValueType::CutsceneFlag => 12,
            ValueType::CutsceneCameraPoint => 13,
            ValueType::CutsceneTitle => 14,
            ValueType::CutsceneRecording => 15,
            ValueType::DeviceGroup => 16,
            ValueType::Ai => 17,
            ValueType::AiCommandList => 18,
            ValueType::StartingProfile => 19,
            ValueType::Conversation => 20,
            ValueType::Navpoint => 21,
            ValueType::HudMessage => 22,
            ValueType::ObjectList => 23,
            ValueType::Sound => 24,
            ValueType::Effect => 25,
            ValueType::Damage => 26,
            ValueType::LoopingSound => 27,
            ValueType::AnimationGraph => 28,
            ValueType::ActorVariant => 29,
            ValueType::DamageEffect => 30,
            ValueType::ObjectDefinition => 31,
            ValueType::GameDifficulty => 32,
            ValueType::Team => 33,
            ValueType::AiDefaultState => 34,
            ValueType::ActorType => 35,
            ValueType::HudCorner => 36,
            ValueType::Object => 37,
            ValueType::Unit => 38,
            ValueType::Vehicle => 39,
            ValueType::Weapon => 40,
            ValueType::Device => 41,
            ValueType::Scenery => 42,
            ValueType::ObjectName => 43,
            ValueType::UnitName => 44,
            ValueType::VehicleName => 45,
            ValueType::WeaponName => 46,
            ValueType::DeviceName => 47,
            ValueType::SceneryName => 48,
        }
    }
}

} // verus!
