use riat::compile::checks::check_definitions;
use riat::compile::collapse::optimize_begin;
use riat::compile::node::Node;
use riat::compile::script::parameter_index;
use riat::compile::script::Global;
use riat::compile::script::Script;
use riat::compile::script::ScriptParameter;
use riat::compile::stubs::remove_stubs;
use riat::definitions::Definitions;
use riat::definitions::EngineAvailability;
use riat::definitions::EngineFunction;
use riat::definitions::EngineFunctionParameter;
use riat::definitions::EngineGlobal;
use riat::generate::generate_availability;
use riat::generate::generate_definitions;
use riat::generate::DefinitionEngine;
use riat::generate::DefinitionFunction;
use riat::generate::DefinitionGlobal;
use riat::generate::DefinitionParameter;
use riat::text::concat2;
use riat::text::concat3;
use riat::text::concat5;
use riat::text::concat7;
use riat::text::is_real_literal;
use riat::text::str_equal;
use riat::token::read_token_forest;
use riat::token::read_tokens;
use riat::token::Token;
use riat::CompileEncoding;
use riat::CompileErrorType;
use riat::CompileTarget;
use riat::Compiler;
use riat::ErrorKind;
use riat::NodeData;
use riat::NodeType;
use riat::PrimitiveType;
use riat::ScriptType;
use riat::ValueType;

const ALL_TYPES: [ValueType; 49] = [
    ValueType::Unparsed,
    ValueType::SpecialForm,
    ValueType::FunctionName,
    ValueType::Passthrough,
    ValueType::Void,
    ValueType::Boolean,
    ValueType::Real,
    ValueType::Short,
    ValueType::Long,
    ValueType::String,
    ValueType::Script,
    ValueType::TriggerVolume,
    ValueType::CutsceneFlag,
    ValueType::CutsceneCameraPoint,
    ValueType::CutsceneTitle,
    ValueType::CutsceneRecording,
    ValueType::DeviceGroup,
    ValueType::Ai,
    ValueType::AiCommandList,
    ValueType::StartingProfile,
    ValueType::Conversation,
    ValueType::Navpoint,
    ValueType::HudMessage,
    ValueType::ObjectList,
    ValueType::Sound,
    ValueType::Effect,
    ValueType::Damage,
    ValueType::LoopingSound,
    ValueType::AnimationGraph,
    ValueType::ActorVariant,
    ValueType::DamageEffect,
    ValueType::ObjectDefinition,
    ValueType::GameDifficulty,
    ValueType::Team,
    ValueType::AiDefaultState,
    ValueType::ActorType,
    ValueType::HudCorner,
    ValueType::Object,
    ValueType::Unit,
    ValueType::Vehicle,
    ValueType::Weapon,
    ValueType::Device,
    ValueType::Scenery,
    ValueType::ObjectName,
    ValueType::UnitName,
    ValueType::VehicleName,
    ValueType::WeaponName,
    ValueType::DeviceName,
    ValueType::SceneryName,
];

#[test]
fn value_type_numbers_follow_the_order_of_declaration() {
    for (i, t) in ALL_TYPES.iter().enumerate() {
        assert_eq!(i as u16, t.as_int());
    }
    assert_eq!(0, ValueType::Unparsed.as_int());
    assert_eq!(3, ValueType::Passthrough.as_int());
    assert_eq!(48, ValueType::SceneryName.as_int());
    assert_eq!(ValueType::Unparsed, ValueType::default());
}

#[test]
fn value_type_names_go_both_ways() {
    for t in ALL_TYPES.iter() {
        let underscored = t.as_str().replace(' ', "_");
        assert_eq!(Some(*t), ValueType::from_str_underscore(&underscored));
        assert_eq!(t.as_str(), t.to_string());
    }
    assert_eq!("cutscene camera point", ValueType::CutsceneCameraPoint.as_str());
    assert_eq!(Some(ValueType::AiCommandList), ValueType::from_str_underscore("ai_command_list"));
    assert_eq!(None, ValueType::from_str_underscore("ai command list"));
    assert_eq!(None, ValueType::from_str_underscore("Real"));
    assert_eq!(None, ValueType::from_str_underscore(""));
}

#[test]
fn conversions_follow_the_table() {
    let converts = |from: ValueType, to: ValueType| from.can_convert_to(to);
    for a in ALL_TYPES.iter() {
        assert!(converts(*a, *a));
        assert!(converts(ValueType::Passthrough, *a));
        for b in ALL_TYPES.iter() {
            let expected = a == b
                || *a == ValueType::Passthrough
                || (*a == ValueType::Real && (*b == ValueType::Short || *b == ValueType::Long))
                || (*a == ValueType::Short && *b == ValueType::Real)
                || (*a == ValueType::Long && (*b == ValueType::Short || *b == ValueType::Real))
                || (*a == ValueType::Vehicle && *b == ValueType::Unit)
                || ([
                    ValueType::ObjectName,
                    ValueType::Object,
                    ValueType::Unit,
                    ValueType::Vehicle,
                    ValueType::Weapon,
                    ValueType::Scenery,
                    ValueType::Device,
                ]
                .contains(a)
                    && (*b == ValueType::Object || *b == ValueType::ObjectList));
            assert_eq!(expected, converts(*a, *b), "{:?} -> {:?}", a, b);
        }
    }
    assert!(!converts(ValueType::Short, ValueType::Long));
    assert!(converts(ValueType::Long, ValueType::Short));
    assert!(!converts(ValueType::Unit, ValueType::Vehicle));
    assert!(!converts(ValueType::UnitName, ValueType::Object));
}

#[test]
fn script_types() {
    assert_eq!(Some(ScriptType::Static), ScriptType::from_str("static"));
    assert_eq!(Some(ScriptType::Stub), ScriptType::from_str("stub"));
    assert_eq!(Some(ScriptType::Continuous), ScriptType::from_str("continuous"));
    assert_eq!(Some(ScriptType::Dormant), ScriptType::from_str("dormant"));
    assert_eq!(Some(ScriptType::Startup), ScriptType::from_str("startup"));
    assert_eq!(None, ScriptType::from_str("Static"));
    for t in [ScriptType::Static, ScriptType::Stub, ScriptType::Continuous, ScriptType::Dormant, ScriptType::Startup] {
        assert_eq!(Some(t), ScriptType::from_str(t.as_str()));
    }
    assert!(ScriptType::Startup.always_returns_void());
    assert!(ScriptType::Dormant.always_returns_void());
    assert!(ScriptType::Continuous.always_returns_void());
    assert!(!ScriptType::Static.always_returns_void());
    assert!(!ScriptType::Stub.always_returns_void());
    assert_eq!(3, ScriptType::Startup.expression_offset());
    assert_eq!(4, ScriptType::Static.expression_offset());
    assert_eq!(4, ScriptType::Stub.expression_offset());
}

#[test]
fn node_types() {
    let local = NodeType::Primitive(PrimitiveType::Local);
    let global = NodeType::Primitive(PrimitiveType::Global);
    let literal = NodeType::Primitive(PrimitiveType::Static);
    let engine = NodeType::FunctionCall(true);
    let script = NodeType::FunctionCall(false);
    assert_eq!(literal, NodeType::default());
    assert_eq!([true, true, false, false, false], [local, global, literal, engine, script].map(|t| t.is_variable()));
    assert_eq!([false, false, true, false, false], [local, global, literal, engine, script].map(|t| t.is_static_value()));
    assert_eq!([false, true, false, false, false], [local, global, literal, engine, script].map(|t| t.is_global()));
    assert_eq!([true, false, true, false, false], [local, global, literal, engine, script].map(|t| t.is_nonglobal_primitive()));
    assert_eq!([false, false, false, true, false], [local, global, literal, engine, script].map(|t| t.is_engine_function()));
    assert_eq!([false, false, false, false, true], [local, global, literal, engine, script].map(|t| t.is_script()));
    assert_eq!([true, true, true, false, false], [local, global, literal, engine, script].map(|t| t.is_primitive()));
    assert_eq!([false, false, false, true, true], [local, global, literal, engine, script].map(|t| t.is_function_call()));
}

#[test]
fn targets() {
    assert_eq!(16, CompileTarget::HaloCEA.maximum_script_parameters());
    assert_eq!(0, CompileTarget::HaloCEXboxNTSC.maximum_script_parameters());
    assert_eq!(0, CompileTarget::HaloCEGBX.maximum_script_parameters());
    assert_eq!(0, CompileTarget::HaloCEGBXDemo.maximum_script_parameters());
    assert_eq!(0, CompileTarget::HaloCustomEdition.maximum_script_parameters());
    assert_eq!("Halo: Combat Evolved (Xbox)", CompileTarget::HaloCEXboxNTSC.as_str());
    assert_eq!("warning", CompileErrorType::Warning.as_str());
    assert_eq!("error", CompileErrorType::Error.as_str());
}

#[test]
fn availability() {
    let a = EngineAvailability { mcc_cea: Some(1), gbx_retail: Some(2), gbx_custom: Some(3), gbx_demo: None, xbox: Some(5) };
    assert_eq!(Some(1), a.index_for_target(CompileTarget::HaloCEA));
    assert_eq!(Some(2), a.index_for_target(CompileTarget::HaloCEGBX));
    assert_eq!(Some(3), a.index_for_target(CompileTarget::HaloCustomEdition));
    assert_eq!(None, a.index_for_target(CompileTarget::HaloCEGBXDemo));
    assert_eq!(Some(5), a.index_for_target(CompileTarget::HaloCEXboxNTSC));
    assert!(a.supports_target(CompileTarget::HaloCEA));
    assert!(!a.supports_target(CompileTarget::HaloCEGBXDemo));
    assert!(a.supports(CompileTarget::HaloCEXboxNTSC));
    assert!(!a.supports(CompileTarget::HaloCEGBXDemo));
}

fn parameter(value_type: ValueType, many: bool, optional: bool, allow_uppercase: bool) -> EngineFunctionParameter {
    EngineFunctionParameter { value_type, many, allow_uppercase, optional }
}

fn everywhere(index: u16) -> EngineAvailability {
    EngineAvailability { mcc_cea: Some(index), gbx_retail: Some(index), gbx_custom: Some(index), gbx_demo: Some(index), xbox: Some(index) }
}

fn function(name: &str, parameters: Vec<EngineFunctionParameter>, availability: EngineAvailability) -> EngineFunction {
    EngineFunction {
        name: name.to_owned(),
        parameters,
        number_passthrough: true,
        passthrough_last: false,
        inequality: true,
        return_type: ValueType::Long,
        availability,
    }
}

#[test]
fn engine_functions() {
    let f = function(
        "f",
        vec![
            parameter(ValueType::Short, false, false, false),
            parameter(ValueType::Real, false, true, true),
            parameter(ValueType::String, true, false, false),
        ],
        everywhere(9),
    );
    assert_eq!("f", f.get_name());
    assert_eq!(ValueType::Long, f.get_return_type());
    assert_eq!(3, f.get_total_parameter_count());
    assert_eq!(1, f.get_minimum_parameter_count());
    assert_eq!(Some(ValueType::Short), f.get_type_of_parameter(0));
    assert_eq!(Some(ValueType::Real), f.get_type_of_parameter(1));
    assert_eq!(Some(ValueType::String), f.get_type_of_parameter(2));
    assert_eq!(Some(ValueType::String), f.get_type_of_parameter(7));
    assert!(f.is_number_passthrough());
    assert!(!f.is_passthrough_last());
    assert!(f.is_inequality());
    assert!(f.is_engine_function());
    assert!(f.supports_target(CompileTarget::HaloCEA));
    assert!(!f.is_uppercase_allowed_for_parameter(0));
    assert!(f.is_uppercase_allowed_for_parameter(1));
    assert!(!f.is_uppercase_allowed_for_parameter(3));
    let g = function("g", vec![parameter(ValueType::Short, false, false, false)], everywhere(1));
    assert_eq!(1, g.get_minimum_parameter_count());
    assert_eq!(None, g.get_type_of_parameter(1));
    let h = function("h", vec![], everywhere(1));
    assert_eq!(0, h.get_minimum_parameter_count());
    assert_eq!(None, h.get_type_of_parameter(0));
    let global = EngineGlobal { name: "x".to_owned(), value_type: ValueType::Team, availability: everywhere(2) };
    assert_eq!("x", global.get_name());
    assert_eq!(ValueType::Team, global.get_value_type());
    assert!(global.supports_target(CompileTarget::HaloCEGBX));
    assert!(global.is_engine_global());
}

#[test]
fn catalog_lookup() {
    let only_custom = EngineAvailability { mcc_cea: None, gbx_retail: None, gbx_custom: Some(4), gbx_demo: None, xbox: None };
    let d = Definitions::new(
        vec![function("a", vec![], everywhere(0)), function("b", vec![], only_custom), function("a", vec![], everywhere(2))],
        vec![EngineGlobal { name: "x".to_owned(), value_type: ValueType::Team, availability: only_custom }],
    );
    assert_eq!(Some(2), d.find_function(CompileTarget::HaloCEA, "a"));
    assert_eq!(None, d.find_function(CompileTarget::HaloCEA, "b"));
    assert_eq!(Some(1), d.find_function(CompileTarget::HaloCustomEdition, "b"));
    assert_eq!(None, d.find_function(CompileTarget::HaloCEA, "A"));
    assert_eq!(None, d.find_global(CompileTarget::HaloCEA, "x"));
    assert_eq!(Some(0), d.find_global(CompileTarget::HaloCustomEdition, "x"));
    assert_eq!((vec![0, 2], vec![]), d.all_functions_and_globals_for_target(CompileTarget::HaloCEA));
    assert_eq!((vec![0, 1, 2], vec![0]), d.all_functions_and_globals_for_target(CompileTarget::HaloCustomEdition));
}

fn engine(name: &str, index: Option<u64>) -> DefinitionEngine {
    DefinitionEngine { name: name.to_owned(), index }
}

#[test]
fn catalog_from_a_document() {
    let engines = vec![engine("mcc-cea", Some(7)), engine("gbx-custom", None), engine("xbox", Some(65535)), engine("other", Some(1))];
    assert_eq!(
        Some(EngineAvailability { mcc_cea: Some(7), gbx_retail: None, gbx_custom: Some(65535), gbx_demo: None, xbox: Some(65535) }),
        generate_availability(&engines)
    );
    assert_eq!(None, generate_availability(&vec![engine("gbx-demo", Some(65536))]));
    assert_eq!(Some(Some(2)), generate_availability(&vec![engine("gbx-retail", Some(1)), engine("gbx-retail", Some(2))]).map(|a| a.gbx_retail));
    let functions = vec![DefinitionFunction {
        name: "sleep".to_owned(),
        value_type: "void".to_owned(),
        parameters: vec![
            DefinitionParameter { value_type: "short".to_owned(), many: false, allow_uppercase: false, optional: false },
            DefinitionParameter { value_type: "script".to_owned(), many: false, allow_uppercase: true, optional: true },
        ],
        number_passthrough: false,
        inequality: true,
        passthrough_last: true,
        engines: vec![engine("mcc-cea", Some(19))],
    }];
    let globals = vec![DefinitionGlobal { name: "g".to_owned(), value_type: "object_list".to_owned(), engines: vec![engine("xbox", None)] }];
    let d = generate_definitions(&functions, &globals).unwrap();
    assert_eq!(1, d.functions.len());
    let f = &d.functions[0];
    assert_eq!("sleep", f.name);
    assert_eq!(ValueType::Void, f.return_type);
    assert_eq!(Some(19), f.availability.mcc_cea);
    assert_eq!(None, f.availability.xbox);
    assert_eq!((false, true, true), (f.number_passthrough, f.inequality, f.passthrough_last));
    assert_eq!(
        vec![
            EngineFunctionParameter { value_type: ValueType::Short, many: false, allow_uppercase: false, optional: false },
            EngineFunctionParameter { value_type: ValueType::Script, many: false, allow_uppercase: true, optional: true },
        ],
        f.parameters
    );
    assert_eq!("g", d.globals[0].name);
    assert_eq!(ValueType::ObjectList, d.globals[0].value_type);
    assert_eq!(Some(65535), d.globals[0].availability.xbox);
    let bad = vec![DefinitionGlobal { name: "g".to_owned(), value_type: "object list".to_owned(), engines: vec![] }];
    assert!(generate_definitions(&functions, &bad).is_none());
    let bad = vec![DefinitionGlobal { name: "g".to_owned(), value_type: "real".to_owned(), engines: vec![engine("xbox", Some(70000))] }];
    assert!(generate_definitions(&vec![], &bad).is_none());
}

#[test]
fn texts() {
    assert!(str_equal("", ""));
    assert!(str_equal("abc", "abc"));
    assert!(!str_equal("abc", "abd"));
    assert!(!str_equal("abc", "ab"));
    assert!(!str_equal("é", "e"));
    assert!(str_equal("é", "é"));
    assert_eq!("ab", concat2("a", "b"));
    assert_eq!("abc", concat3("a", "b", "c"));
    assert_eq!("abcde", concat5("a", "b", "c", "d", "e"));
    assert_eq!("abcdefg", concat7("a", "b", "c", "d", "e", "f", "g"));
}

#[test]
fn real_literals_are_what_the_standard_library_reads() {
    let cases = [
        "0", "5", "-5", "+5", "5.", ".5", "-.5", "+.5e3", "1.5", "1e5", "1E5", "1e+5", "1e-5", "1.e5", "0.0001", "00012",
        "inf", "-inf", "+INF", "Infinity", "-infinity", "nan", "NaN", "-nan", "1234567890123456789012345678901234567890",
        "", "+", "-", ".", "e", "e5", ".e5", "1e", "1e+", "1e5.", "1.5.2", "1 ", " 1", "1_000", "0x10", "in", "infinit", "nano",
        "1f", "--1", "+-1", "1e5e5", "１", "1é", "é", "i", "n", "infinityx", "-", "+.", "-.e1", "1..", "..1",
    ];
    for text in cases.iter() {
        assert_eq!(text.parse::<f32>().is_ok(), is_real_literal(text), "{:?}", text);
    }
    assert!(is_real_literal("-1.5e3"));
    assert!(!is_real_literal("1.5.2"));
}

#[test]
fn encodings() {
    let w = CompileEncoding::Windows1252;
    let u = CompileEncoding::UTF8;
    assert_eq!(Ok("caf\u{e9} \u{20ac}\u{2122}".to_owned()), w.decode_from_bytes(&[0x63, 0x61, 0x66, 0xE9, 0x20, 0x80, 0x99]));
    assert_eq!(vec![0x63, 0x61, 0x66, 0xE9, 0x20, 0x80, 0x99, 0], w.encode_to_cstring("caf\u{e9} \u{20ac}\u{2122}"));
    // what the encoding cannot hold becomes a question mark
    assert_eq!(b"a?b\0".to_vec(), w.encode_to_cstring("a\u{65e5}b"));
    assert_eq!(vec![0], w.encode_to_cstring(""));
    assert_eq!(Ok("caf\u{e9}".to_owned()), u.decode_from_bytes("caf\u{e9}".as_bytes()));
    assert_eq!(vec![0x63, 0x61, 0x66, 0xC3, 0xA9, 0], u.encode_to_cstring("caf\u{e9}"));
    let fault = u.decode_from_bytes(&[0x63, 0xE9, 0x20]).unwrap_err();
    assert_eq!(format!("{:?}", std::str::from_utf8(&[0x63, 0xE9, 0x20]).unwrap_err()), fault);
    assert_eq!(Ok("ab".to_owned()), w.decode_from_cstring(b"ab\0cd\0"));
    assert_eq!(Ok("ab".to_owned()), u.decode_from_cstring(b"ab"));
    assert_eq!(Ok("".to_owned()), u.decode_from_cstring(b"\0"));
    assert!(u.decode_from_cstring(&[0xE9, 0, 0x61]).is_err());
    assert_eq!(Ok("\u{e9}".to_owned()), w.decode_from_cstring(&[0xE9, 0, 0x61]));
}

fn forest(source: &[u8]) -> Vec<Token> {
    read_token_forest(CompileEncoding::Windows1252, source, 3).unwrap()
}

fn fault(source: &[u8]) -> (ErrorKind, usize, usize, String) {
    let d = read_token_forest(CompileEncoding::UTF8, source, 0).unwrap_err();
    (d.kind, d.line, d.column, d.message)
}

fn texts_of(tokens: &Vec<Token>) -> Vec<&str> {
    tokens.iter().map(|t| t.string.as_str()).collect()
}

#[test]
fn reader_words_strings_and_places() {
    let flat = read_tokens(CompileEncoding::UTF8, b"(a \"b c\"\n  d(e))", 2).unwrap();
    assert_eq!(vec!["(", "a", "b c", "d", "(", "e", ")", ")"], texts_of(&flat.tokens));
    assert_eq!(
        vec![(1, 1), (1, 2), (1, 4), (2, 3), (2, 4), (2, 5), (2, 6), (2, 7)],
        flat.tokens.iter().map(|t| (t.line, t.column)).collect::<Vec<(usize, usize)>>()
    );
    assert!(flat.tokens.iter().all(|t| t.file == 2 && t.children.is_none()));
    assert_eq!((2, 7), (flat.line, flat.column));
    let tree = forest(b"(a \"b c\"\n  d(e))");
    assert_eq!(1, tree.len());
    assert!(tree[0].is_block());
    assert_eq!("(", tree[0].string);
    assert_eq!((1, 1, 3), (tree[0].line, tree[0].column, tree[0].file));
    let children = tree[0].children.as_ref().unwrap();
    assert_eq!(vec!["a", "b c", "d", "("], texts_of(children));
    assert_eq!(vec!["e"], texts_of(children[3].children.as_ref().unwrap()));
    assert!(!children[0].is_block());
    let copy = tree[0].duplicate();
    assert_eq!(format!("{:?}", tree[0]), format!("{:?}", copy));
}

#[test]
fn reader_comments() {
    assert_eq!(vec!["a", "b"], texts_of(forest(b"; one\n(a ; two (\n b) ; three").first().unwrap().children.as_ref().unwrap()));
    assert_eq!(vec!["a", "b"], texts_of(forest(b";* one\n ( *;(a ;* two \n*; b)").first().unwrap().children.as_ref().unwrap()));
    // a comment ends a word, and a semicolon inside a string is text
    assert_eq!(vec!["a", "b;c"], texts_of(forest(b"(a;x\n\"b;c\")").first().unwrap().children.as_ref().unwrap()));
    // a block comment that is never closed swallows the rest
    assert_eq!(0, forest(b";* (a b)").len());
    assert_eq!(0, forest(b"").len());
    assert_eq!(0, forest(b"  \n\t ").len());
}

#[test]
fn reader_strings() {
    let tree = forest(b"(\"\" \"(\" a\"b \"x\ny\" \")\")");
    // a string that reads as a parenthesis is taken for one
    assert_eq!(vec!["", "("], texts_of(tree[0].children.as_ref().unwrap()));
    let inner = tree[0].children.as_ref().unwrap()[1].children.as_ref().unwrap();
    assert_eq!(vec!["a\"b", "x\ny"], texts_of(inner));
    assert_eq!((1, 5), (tree[0].children.as_ref().unwrap()[1].line, tree[0].children.as_ref().unwrap()[1].column));
    assert_eq!((1, 13), (inner[1].line, inner[1].column));
}

#[test]
fn reader_white_space() {
    let tree = forest(b"(a\tb\rc\x0bd\x0ce\xa0f\x85g)");
    assert_eq!(vec!["a", "b", "c", "d", "e", "f", "g"], texts_of(tree[0].children.as_ref().unwrap()));
}

#[test]
fn reader_null_terminator() {
    assert_eq!(1, forest(b"(a b)\0").len());
    assert_eq!((ErrorKind::UnexpectedNull, 1, 3, "unexpected null terminator".to_owned()), fault(b"(a\0 b)"));
    assert_eq!(ErrorKind::UnterminatedToken, fault(b"(a b\0").0);
}

#[test]
fn reader_faults() {
    assert_eq!((ErrorKind::UnterminatedToken, 1, 4, "unterminated token".to_owned()), fault(b"(a b"));
    assert_eq!((ErrorKind::UnterminatedToken, 2, 1, "unterminated token".to_owned()), fault(b"(\"a\nb"));
    assert_eq!((ErrorKind::UnterminatedBlock, 1, 4, "unterminated block".to_owned()), fault(b"(a (b "));
    assert_eq!((ErrorKind::UnterminatedBlock, 1, 1, "unterminated block".to_owned()), fault(b"(a (b) c "));
    assert_eq!((ErrorKind::EmptyBlock, 1, 4, "empty block".to_owned()), fault(b"(a ())"));
    assert_eq!((ErrorKind::EmptyBlock, 1, 1, "empty block".to_owned()), fault(b"()"));
    assert_eq!((ErrorKind::ExpectedLeftParenthesis, 1, 5, "expected left parenthesis, got a instead".to_owned()), fault(b"a (b)"));
    assert_eq!((ErrorKind::ExpectedLeftParenthesis, 1, 4, "expected left parenthesis, got ) instead".to_owned()), fault(b"(a))"));
    let (kind, line, column, message) = fault(b"(a \xe9 b)");
    assert_eq!((ErrorKind::DecodeFailure, 1, 5), (kind, line, column));
    assert_eq!(format!("failed to decode token - {:?}", std::str::from_utf8(b"\xe9").unwrap_err()), message);
}

#[test]
fn bytes_are_read_in_the_chosen_encoding() {
    let definitions = || {
        Definitions::new(
            vec![
                EngineFunction {
                    name: "begin".to_owned(),
                    parameters: vec![parameter(ValueType::Passthrough, true, false, false)],
                    number_passthrough: false,
                    passthrough_last: true,
                    inequality: false,
                    return_type: ValueType::Passthrough,
                    availability: everywhere(0),
                },
                EngineFunction {
                    name: "print".to_owned(),
                    parameters: vec![parameter(ValueType::String, false, false, true)],
                    number_passthrough: false,
                    passthrough_last: false,
                    inequality: false,
                    return_type: ValueType::Void,
                    availability: everywhere(1),
                },
            ],
            vec![],
        )
    };
    let source = b"(script startup s (print \"caf\xe9\"))";
    let mut c = Compiler::new(CompileTarget::HaloCEGBX, CompileEncoding::Windows1252, definitions());
    c.read_script_data("\u{e9}.hsc", source).unwrap();
    let data = c.compile_script_data().unwrap();
    let literal = &data.get_nodes()[2];
    assert_eq!(Some("caf\u{e9}"), literal.get_string_data());
    assert_eq!(&b"caf\xe9\0".to_vec(), literal.get_string_data_cstr().unwrap());
    assert_eq!("\u{e9}.hsc", data.get_files()[0].as_str());
    assert_eq!(&b"\xe9.hsc\0".to_vec(), data.get_files()[0].as_cstr());
    let mut c = Compiler::new(CompileTarget::HaloCEGBX, CompileEncoding::UTF8, definitions());
    let e = c.read_script_data("a.hsc", source).unwrap_err();
    assert_eq!(ErrorKind::DecodeFailure, e.get_kind());
    assert_eq!((1, 31), e.get_position());
    let mut c = Compiler::new(CompileTarget::HaloCEGBX, CompileEncoding::UTF8, definitions());
    c.read_script_data("a.hsc", "(script startup s (print \"caf\u{e9}\"))".as_bytes()).unwrap();
    let data = c.compile_script_data().unwrap();
    assert_eq!(&b"caf\xc3\xa9\0".to_vec(), data.get_nodes()[2].get_string_data_cstr().unwrap());
}

fn word(text: &str) -> Token {
    Token { line: 1, column: 1, file: 0, string: text.to_owned(), children: None }
}

fn script(name: &str, script_type: ScriptType, return_type: ValueType) -> Script {
    Script { name: name.to_owned(), return_type, script_type, original_token: word("("), node: Node::default(), parameters: Vec::new() }
}

fn global(name: &str) -> Global {
    Global { name: name.to_owned(), value_type: ValueType::Short, original_token: word("("), node: Node::default() }
}

#[test]
fn script_count_boundary() {
    let mut scripts: Vec<Script> = (0..32767).map(|i| script(&format!("{:x}", i), ScriptType::Static, ValueType::Void)).collect();
    assert!(check_definitions(&scripts, &Vec::new()).is_ok());
    let mut last = script("last", ScriptType::Static, ValueType::Void);
    last.original_token.line = 77;
    scripts.push(last);
    let e = check_definitions(&scripts, &Vec::new()).unwrap_err();
    assert_eq!(ErrorKind::TooManyScripts, e.kind);
    assert_eq!("maximum script limit of 32767 exceeded (32768 / 32767)", e.message);
    assert_eq!(77, e.line);
}

#[test]
fn global_count_boundary() {
    let mut globals: Vec<Global> = (0..32767).map(|i| global(&format!("{:x}", i))).collect();
    assert!(check_definitions(&Vec::new(), &globals).is_ok());
    globals.push(global("last"));
    let e = check_definitions(&Vec::new(), &globals).unwrap_err();
    assert_eq!(ErrorKind::TooManyGlobals, e.kind);
    assert_eq!("maximum global limit of 32767 exceeded (32768 / 32767)", e.message);
}

#[test]
fn removing_stubs_twice_changes_nothing() {
    let scripts = vec![
        script("a", ScriptType::Stub, ValueType::Void),
        script("b", ScriptType::Stub, ValueType::Short),
        script("a", ScriptType::Static, ValueType::Void),
        script("c", ScriptType::Startup, ValueType::Void),
        script("b", ScriptType::Static, ValueType::Short),
        script("d", ScriptType::Stub, ValueType::Real),
    ];
    let once = remove_stubs(scripts).unwrap();
    let names: Vec<(String, ScriptType)> = once.iter().map(|s| (s.name.clone(), s.script_type)).collect();
    assert_eq!(
        vec![
            ("a".to_owned(), ScriptType::Static),
            ("c".to_owned(), ScriptType::Startup),
            ("b".to_owned(), ScriptType::Static),
            ("d".to_owned(), ScriptType::Stub),
        ],
        names
    );
    let twice = remove_stubs(once).unwrap();
    assert_eq!(names, twice.iter().map(|s| (s.name.clone(), s.script_type)).collect::<Vec<(String, ScriptType)>>());
}

fn call(name: &str, engine: bool, parameters: Vec<Node>) -> Node {
    Node {
        value_type: ValueType::Void,
        node_type: NodeType::FunctionCall(engine),
        string_data: Some(name.to_owned()),
        data: None,
        index: None,
        parameters: Some(parameters),
        file: 0,
        line: 1,
        column: 1,
    }
}

fn literal(value: i16) -> Node {
    Node {
        value_type: ValueType::Short,
        node_type: NodeType::Primitive(PrimitiveType::Static),
        string_data: None,
        data: Some(NodeData::Short(value)),
        index: None,
        parameters: None,
        file: 0,
        line: 1,
        column: 1,
    }
}

#[test]
fn collapsing_begin() {
    let tree = call(
        "begin",
        true,
        vec![call("begin", true, vec![call("f", true, vec![call("begin", true, vec![literal(1)]), call("begin", true, vec![literal(2), literal(3)]), call("begin", false, vec![literal(4)]), call("begin", true, vec![])])])],
    );
    let once = optimize_begin(&tree);
    assert_eq!(Some("f".to_owned()), once.string_data);
    let arguments = once.parameters.as_ref().unwrap();
    assert_eq!(4, arguments.len());
    assert_eq!(Some(NodeData::Short(1)), arguments[0].data);
    assert_eq!(2, arguments[1].parameters.as_ref().unwrap().len());
    // a script called `begin` is no `begin`
    assert_eq!(NodeType::FunctionCall(false), arguments[2].node_type);
    assert_eq!(0, arguments[3].parameters.as_ref().unwrap().len());
    let twice = optimize_begin(&once);
    assert_eq!(format!("{:?}", once), format!("{:?}", twice));
}

#[test]
fn parameters_are_found_by_name() {
    let parameters = vec![
        ScriptParameter { name: "a".to_owned(), value_type: ValueType::Real, original_token: word("a") },
        ScriptParameter { name: "b".to_owned(), value_type: ValueType::Short, original_token: word("b") },
        ScriptParameter { name: "a".to_owned(), value_type: ValueType::Long, original_token: word("a") },
    ];
    assert_eq!(Some(0), parameter_index("a", &parameters));
    assert_eq!(Some(1), parameter_index("b", &parameters));
    assert_eq!(None, parameter_index("c", &parameters));
    assert_eq!("b", parameters[1].get_name());
    assert_eq!(ValueType::Short, parameters[1].get_value_type());
    assert!(parameters[1].supports_target(CompileTarget::HaloCEA));
    let mut s = script("s", ScriptType::Static, ValueType::Real);
    s.parameters = parameters;
    assert_eq!("s", s.get_name());
    assert_eq!(ValueType::Real, s.get_return_type());
    assert_eq!(3, s.get_total_parameter_count());
    assert_eq!(Some(ValueType::Short), s.get_type_of_parameter(1));
    assert_eq!(None, s.get_type_of_parameter(3));
    assert!(s.supports_target(CompileTarget::HaloCEGBX));
    let g = global("g");
    assert_eq!("g", g.get_name());
    assert_eq!(ValueType::Short, g.get_value_type());
    assert!(g.supports_target(CompileTarget::HaloCEGBX));
}
