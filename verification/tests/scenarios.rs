use riat::definitions::Definitions;
use riat::definitions::EngineAvailability;
use riat::definitions::EngineFunction;
use riat::definitions::EngineFunctionParameter;
use riat::definitions::EngineGlobal;
use riat::CompileEncoding;
use riat::CompileError;
use riat::CompileErrorType;
use riat::CompileTarget;
use riat::CompiledNode;
use riat::CompiledScriptData;
use riat::Compiler;
use riat::ErrorKind;
use riat::NodeData;
use riat::NodeType;
use riat::PrimitiveType;
use riat::ScriptType;
use riat::ValueType;

fn everywhere(index: u16) -> EngineAvailability {
    EngineAvailability {
        mcc_cea: Some(index),
        gbx_retail: Some(index),
        gbx_custom: Some(index),
        gbx_demo: Some(index),
        xbox: Some(index),
    }
}

fn custom_only(index: u16) -> EngineAvailability {
    EngineAvailability { mcc_cea: None, gbx_retail: None, gbx_custom: Some(index), gbx_demo: None, xbox: None }
}

fn parameter(value_type: ValueType) -> EngineFunctionParameter {
    EngineFunctionParameter { value_type, many: false, allow_uppercase: false, optional: false }
}

fn many(value_type: ValueType) -> EngineFunctionParameter {
    EngineFunctionParameter { value_type, many: true, allow_uppercase: false, optional: false }
}

fn optional(value_type: ValueType) -> EngineFunctionParameter {
    EngineFunctionParameter { value_type, many: false, allow_uppercase: false, optional: true }
}

fn uppercase(value_type: ValueType) -> EngineFunctionParameter {
    EngineFunctionParameter { value_type, many: false, allow_uppercase: true, optional: false }
}

fn function(
    name: &str,
    return_type: ValueType,
    parameters: Vec<EngineFunctionParameter>,
    availability: EngineAvailability,
) -> EngineFunction {
    EngineFunction {
        name: name.to_owned(),
        parameters,
        number_passthrough: false,
        passthrough_last: false,
        inequality: false,
        return_type,
        availability,
    }
}

fn catalog() -> Definitions {
    let mut begin = function("begin", ValueType::Passthrough, vec![many(ValueType::Passthrough)], everywhere(0));
    begin.passthrough_last = true;
    let plus = {
        let mut f = function("+", ValueType::Passthrough, vec![many(ValueType::Real)], everywhere(10));
        f.number_passthrough = true;
        f
    };
    let minus = {
        let mut f = function("-", ValueType::Passthrough, vec![parameter(ValueType::Real), parameter(ValueType::Real)], everywhere(11));
        f.number_passthrough = true;
        f
    };
    let divide = {
        let mut f = function("/", ValueType::Passthrough, vec![parameter(ValueType::Real), parameter(ValueType::Real)], everywhere(13));
        f.number_passthrough = true;
        f
    };
    let less = {
        let mut f = function("<", ValueType::Boolean, vec![parameter(ValueType::Passthrough), parameter(ValueType::Passthrough)], everywhere(16));
        f.inequality = true;
        f
    };
    let functions = vec![
        begin,
        function(
            "if",
            ValueType::Passthrough,
            vec![parameter(ValueType::Boolean), parameter(ValueType::Passthrough), optional(ValueType::Passthrough)],
            everywhere(2),
        ),
        function("set", ValueType::Passthrough, vec![parameter(ValueType::Passthrough), parameter(ValueType::Passthrough)], everywhere(4)),
        plus,
        minus,
        divide,
        function("=", ValueType::Boolean, vec![parameter(ValueType::Passthrough), parameter(ValueType::Passthrough)], everywhere(14)),
        less,
        function("print", ValueType::Void, vec![parameter(ValueType::String)], everywhere(30)),
        function("sleep", ValueType::Void, vec![parameter(ValueType::Short), optional(ValueType::Script)], everywhere(19)),
        function("wake", ValueType::Void, vec![parameter(ValueType::Script)], everywhere(21)),
        function("game_difficulty_get", ValueType::GameDifficulty, vec![], everywhere(40)),
        function("ai_allegiance", ValueType::Void, vec![parameter(ValueType::Team), parameter(ValueType::Team)], everywhere(41)),
        function("custom_only", ValueType::Void, vec![], custom_only(500)),
        function("sound_play", ValueType::Void, vec![uppercase(ValueType::Sound)], everywhere(42)),
        function("object_destroy", ValueType::Void, vec![parameter(ValueType::Object)], everywhere(43)),
        function("unit", ValueType::Unit, vec![parameter(ValueType::Object)], everywhere(44)),
        function("real_value", ValueType::Real, vec![], everywhere(45)),
        function("truth", ValueType::Boolean, vec![parameter(ValueType::Boolean)], everywhere(46)),
        function("long_value", ValueType::Long, vec![parameter(ValueType::Long)], everywhere(47)),
    ];
    let globals = vec![
        EngineGlobal { name: "cheat_deathless_player".to_owned(), value_type: ValueType::Boolean, availability: everywhere(3) },
        EngineGlobal { name: "custom_global".to_owned(), value_type: ValueType::Short, availability: custom_only(7) },
    ];
    Definitions::new(functions, globals)
}

fn compiler(target: CompileTarget) -> Compiler {
    Compiler::new(target, CompileEncoding::Windows1252, catalog())
}

fn compile_on(target: CompileTarget, source: &str) -> Result<CompiledScriptData, CompileError> {
    let mut c = compiler(target);
    c.read_script_data("test.hsc", source.as_bytes())?;
    c.compile_script_data()
}

fn compile(source: &str) -> Result<CompiledScriptData, CompileError> {
    compile_on(CompileTarget::HaloCEA, source)
}

fn kind_of(source: &str) -> ErrorKind {
    match compile(source) {
        Ok(_) => panic!("compiled: {}", source),
        Err(e) => e.get_kind(),
    }
}

fn name_node<'a>(nodes: &'a Vec<CompiledNode>, call: &CompiledNode) -> &'a CompiledNode {
    match call.get_data() {
        Some(NodeData::NodeOffset(offset)) => &nodes[offset],
        _ => panic!(),
    }
}

const HELLO_WORLD_HSC: &[u8] = b"(script static void hello_world (print \"hello world\"))";

const SCRIPT_PARAMETERS_HSC: &[u8] =
    b"(global real two 2)\n(script static real (half (real a) (real b)) (/ (+ a b) two))";

const NUMBER_PASSTHROUGH_HSC: &[u8] =
    b"(global short eleven (+ 5 6))\n(global short zero (- eleven eleven))\n(global boolean eleven_gt_zero (= eleven zero))";

const GBX_ONLY_HSC: &[u8] = b"(script startup compatibility (custom_only))";

#[test]
fn test_tokenizer_hello_world() {
    let mut compiler = compiler(CompileTarget::HaloCEA);
    compiler.read_script_data("hello_world.hsc", HELLO_WORLD_HSC).unwrap();

    let tokens = compiler.get_tokens();
    assert_eq!(1, tokens.len()); // 1 script
    assert_eq!(5, tokens[0].children.as_ref().unwrap().len()); // 'script', 'static', 'void', 'hello_world', and the body
    assert_eq!(2, tokens[0].children.as_ref().unwrap()[4].children.as_ref().unwrap().len()); // 'print' and 'hello world'
}

#[test]
fn test_compiler_hello_world() {
    let mut compiler = compiler(CompileTarget::HaloCEA);
    compiler.read_script_data("hello_world.hsc", HELLO_WORLD_HSC).unwrap();

    // Compile script data
    compiler.compile_script_data().unwrap();
}

#[test]
fn test_compatibility() {
    let mut compiler_cea = compiler(CompileTarget::HaloCEA);
    compiler_cea.read_script_data("test_compatibility_gbx_only_hsc.hsc", GBX_ONLY_HSC).unwrap();
    assert!(matches!(compiler_cea.compile_script_data(), Err(_))); // this needs to fail

    let mut compiler_gbx = compiler(CompileTarget::HaloCustomEdition);
    compiler_gbx.read_script_data("test_compatibility_gbx_only_hsc.hsc", GBX_ONLY_HSC).unwrap();
    assert!(matches!(compiler_gbx.compile_script_data(), Ok(_))); // this needs to pass
}

#[test]
fn test_compiler_script_parameters() {
    let mut compiler = compiler(CompileTarget::HaloCEA);
    compiler.read_script_data("test_script_parameters.hsc", SCRIPT_PARAMETERS_HSC).unwrap();

    let script_data = compiler.compile_script_data().unwrap();

    let globals = script_data.get_globals();
    assert_eq!(1, globals.len());
    let scripts = script_data.get_scripts();
    assert_eq!(1, scripts.len());
    let script = &scripts[0];

    let nodes = script_data.get_nodes();
    let script_node = &nodes[script.get_first_node_index()];
    assert_eq!(ValueType::Real, script_node.get_value_type()); // return type

    // Function call
    assert_eq!(NodeType::FunctionCall(true), script_node.get_type());

    // No other node after this
    assert_eq!(None, script_node.get_next_node_index());

    let division_function_name_node = match script_node.get_data() {
        Some(NodeData::NodeOffset(offset)) => &nodes[offset],
        _ => panic!(),
    };

    // This should be a function name
    assert_eq!(ValueType::FunctionName, division_function_name_node.get_value_type());
    assert_eq!("/", division_function_name_node.get_string_data().unwrap());

    // Addition function call
    let addition_node = &nodes[division_function_name_node.get_next_node_index().unwrap()];
    assert_eq!(NodeType::FunctionCall(true), addition_node.get_type());
    let addition_function_name_node = match addition_node.get_data() {
        Some(NodeData::NodeOffset(offset)) => &nodes[offset],
        _ => panic!(),
    };
    assert_eq!(ValueType::FunctionName, addition_function_name_node.get_value_type());
    assert_eq!("+", addition_function_name_node.get_string_data().unwrap());

    // These are local variables.
    let a_node = &nodes[addition_function_name_node.get_next_node_index().unwrap()];
    let b_node = &nodes[a_node.get_next_node_index().unwrap()];
    assert_eq!("a", a_node.get_string_data().unwrap());
    assert_eq!("b", b_node.get_string_data().unwrap());
    assert_eq!(NodeType::Primitive(PrimitiveType::Local), a_node.get_type());
    assert_eq!(NodeType::Primitive(PrimitiveType::Local), b_node.get_type());
    assert_eq!(NodeData::Long(0), a_node.get_data().unwrap());
    assert_eq!(NodeData::Long(1), b_node.get_data().unwrap());
    assert_eq!(None, b_node.get_next_node_index());

    // The "two" node we're dividing by.
    let two_node = &nodes[addition_node.get_next_node_index().unwrap()];
    assert_eq!("two", two_node.get_string_data().unwrap());
    assert_eq!(NodeType::Primitive(PrimitiveType::Global), two_node.get_type());
    assert_eq!(NodeData::Long(0), two_node.get_data().unwrap());
    assert_eq!(None, two_node.get_next_node_index());
}

fn real_of(data: Option<NodeData>) -> f32 {
    match data {
        Some(NodeData::Real(text)) => text.parse::<f32>().unwrap(),
        _ => panic!(),
    }
}

#[test]
fn test_number_passthrough() {
    let mut compiler = compiler(CompileTarget::HaloCEA);
    compiler.read_script_data("test_number_passthrough.hsc", NUMBER_PASSTHROUGH_HSC).unwrap();

    // Compile script data
    let result = compiler.compile_script_data().unwrap();

    // Let's look at each global
    let globals = result.get_globals();
    let nodes = result.get_nodes();
    assert_eq!(3, globals.len());

    // Literal parameters passed to (+ <a> <b>) should be real
    let eleven_node = &nodes[globals[0].get_first_node_index()];
    assert_eq!(ValueType::Short, eleven_node.get_value_type()); // return type

    // Function name
    let eleven_node_function_name = match eleven_node.get_data() {
        Some(NodeData::NodeOffset(n)) => &nodes[n],
        _ => unreachable!(),
    };
    assert_eq!(ValueType::FunctionName, eleven_node_function_name.get_value_type()); // function name
    assert_eq!("+", eleven_node_function_name.get_string_data().unwrap());

    // First parameter - 5
    let eleven_node_1st_parameter = &nodes[eleven_node_function_name.get_next_node_index().unwrap()];
    assert_eq!(ValueType::Real, eleven_node_1st_parameter.get_value_type());
    assert_eq!(Some(NodeData::Real("5".to_owned())), eleven_node_1st_parameter.get_data());
    assert_eq!(5.0, real_of(eleven_node_1st_parameter.get_data()));
    assert_eq!(None, eleven_node_1st_parameter.get_string_data());

    // Second parameter - 6
    let eleven_node_2nd_parameter = &nodes[eleven_node_1st_parameter.get_next_node_index().unwrap()];
    assert_eq!(ValueType::Real, eleven_node_2nd_parameter.get_value_type());
    assert_eq!(Some(NodeData::Real("6".to_owned())), eleven_node_2nd_parameter.get_data());
    assert_eq!(6.0, real_of(eleven_node_2nd_parameter.get_data()));
    assert_eq!(None, eleven_node_2nd_parameter.get_string_data());

    // That's everything
    assert_eq!(None, eleven_node_2nd_parameter.get_next_node_index());

    // Globals passed to (- <a> <b>) should be real even if the globals, themselves, are short, as well as the return value
    let zero_node = &nodes[globals[1].get_first_node_index()];
    assert_eq!(zero_node.get_value_type(), ValueType::Short); // return type

    // Function name
    let zero_node_function_name = match zero_node.get_data() {
        Some(NodeData::NodeOffset(n)) => &nodes[n],
        _ => unreachable!(),
    };
    assert_eq!(ValueType::FunctionName, zero_node_function_name.get_value_type()); // function name
    assert_eq!("-", zero_node_function_name.get_string_data().unwrap());

    // First parameter
    let zero_node_1st_parameter = &nodes[zero_node_function_name.get_next_node_index().unwrap()];
    assert_eq!(ValueType::Real, zero_node_1st_parameter.get_value_type());
    assert_eq!(Some(NodeData::Long(0)), zero_node_1st_parameter.get_data());
    assert_eq!("eleven", zero_node_1st_parameter.get_string_data().unwrap());

    // Second parameter
    let zero_node_2nd_parameter = &nodes[zero_node_1st_parameter.get_next_node_index().unwrap()];
    assert_eq!(ValueType::Real, zero_node_2nd_parameter.get_value_type());
    assert_eq!(Some(NodeData::Long(0)), zero_node_2nd_parameter.get_data());
    assert_eq!("eleven", zero_node_2nd_parameter.get_string_data().unwrap());

    // That's everything
    assert_eq!(None, zero_node_2nd_parameter.get_next_node_index());

    // But parameters passed to (= <a> <b>) should match the input type
    let eleven_is_greater_than_zero = &nodes[globals[2].get_first_node_index()];
    assert_eq!(eleven_is_greater_than_zero.get_value_type(), ValueType::Boolean); // return type

    // Function name
    let eleven_is_greater_than_zero_function_name = match eleven_is_greater_than_zero.get_data() {
        Some(NodeData::NodeOffset(n)) => &nodes[n],
        _ => unreachable!(),
    };
    assert_eq!(ValueType::FunctionName, eleven_is_greater_than_zero_function_name.get_value_type()); // function name
    assert_eq!("=", eleven_is_greater_than_zero_function_name.get_string_data().unwrap());

    // First parameter
    let eleven_is_greater_than_zero_1st_parameter =
        &nodes[eleven_is_greater_than_zero_function_name.get_next_node_index().unwrap()];
    assert_eq!(ValueType::Short, eleven_is_greater_than_zero_1st_parameter.get_value_type());
    assert_eq!(Some(NodeData::Long(0)), eleven_is_greater_than_zero_1st_parameter.get_data());
    assert_eq!("eleven", eleven_is_greater_than_zero_1st_parameter.get_string_data().unwrap());

    // Second parameter
    let eleven_is_greater_than_zero_2nd_parameter =
        &nodes[eleven_is_greater_than_zero_1st_parameter.get_next_node_index().unwrap()];
    assert_eq!(ValueType::Short, eleven_is_greater_than_zero_2nd_parameter.get_value_type());
    assert_eq!(Some(NodeData::Long(1)), eleven_is_greater_than_zero_2nd_parameter.get_data());
    assert_eq!("zero", eleven_is_greater_than_zero_2nd_parameter.get_string_data().unwrap());

    // That's everything
    assert_eq!(None, eleven_is_greater_than_zero_2nd_parameter.get_next_node_index());
}

#[test]
fn hello_world_output() {
    let data = compile("(script static void hello_world (print \"hello world\"))").unwrap();
    assert_eq!(1, data.get_scripts().len());
    assert_eq!(0, data.get_globals().len());
    assert_eq!(0, data.get_warnings().len());
    let script = &data.get_scripts()[0];
    assert_eq!(ScriptType::Static, script.get_type());
    assert_eq!(ValueType::Void, script.get_value_type());
    assert_eq!("hello_world", script.get_name());
    assert_eq!(b"hello_world\0".to_vec(), *script.get_name_cstr());
    assert_eq!((1, 1), (script.get_line(), script.get_column()));
    assert_eq!(0, script.get_file());
    let nodes = data.get_nodes();
    assert_eq!(3, nodes.len());
    let call = &nodes[script.get_first_node_index()];
    assert_eq!(NodeType::FunctionCall(true), call.get_type());
    assert_eq!(Some(30), call.get_index());
    assert_eq!(ValueType::Void, call.get_value_type());
    assert_eq!(None, call.get_string_data());
    let name = name_node(nodes, call);
    assert_eq!("print", name.get_string_data().unwrap());
    assert_eq!(ValueType::FunctionName, name.get_value_type());
    assert_eq!(Some(NodeData::Long(0)), name.get_data());
    let argument = &nodes[name.get_next_node_index().unwrap()];
    assert_eq!(ValueType::String, argument.get_value_type());
    assert_eq!("hello world", argument.get_string_data().unwrap());
    assert_eq!(b"hello world\0".to_vec(), *argument.get_string_data_cstr().unwrap());
    assert_eq!(None, argument.get_next_node_index());
    assert_eq!((1, 40), (argument.get_line(), argument.get_column()));
    assert_eq!(1, data.get_files().len());
    assert_eq!("test.hsc", data.get_files()[0].as_str());
}

#[test]
fn cond_is_nested_if() {
    let a = compile("(script static void f (cond ((= 1 1) (print \"a\")) ((= 2 2) (print \"b\"))))").unwrap();
    let b = compile("(script static void f (if (= 1 1) (begin (print \"a\")) (if (= 2 2) (begin (print \"b\")))))").unwrap();
    let x = a.get_nodes();
    let y = b.get_nodes();
    assert_eq!(x.len(), y.len());
    for i in 0..x.len() {
        assert_eq!(x[i].get_type(), y[i].get_type());
        assert_eq!(x[i].get_value_type(), y[i].get_value_type());
        assert_eq!(x[i].get_data(), y[i].get_data());
        assert_eq!(x[i].get_string_data(), y[i].get_string_data());
        assert_eq!(x[i].get_next_node_index(), y[i].get_next_node_index());
        assert_eq!(x[i].get_index(), y[i].get_index());
    }
    // the root is the outer `if`, and no `begin` with one argument is left
    let root = &x[a.get_scripts()[0].get_first_node_index()];
    assert_eq!("if", name_node(x, root).get_string_data().unwrap());
    for n in x.iter() {
        assert!(n.get_string_data() != Some("begin"));
    }
    // the synthesized `if` stands at the place of its arm
    assert_eq!((1, 29), (root.get_line(), root.get_column()));
}

#[test]
fn stub_is_replaced_by_static() {
    let data = compile("(script stub short s 1)\n(script static short s 2)").unwrap();
    assert_eq!(1, data.get_scripts().len());
    assert_eq!("s", data.get_scripts()[0].get_name());
    assert_eq!(ScriptType::Static, data.get_scripts()[0].get_type());
    assert_eq!(2, data.get_scripts()[0].get_line());
    assert_eq!(0, data.get_warnings().len());
    let nodes = data.get_nodes();
    assert_eq!(Some(NodeData::Short(2)), nodes[data.get_scripts()[0].get_first_node_index()].get_data());
}

#[test]
fn stub_without_replacement_stays() {
    let data = compile("(script stub short s 1)").unwrap();
    assert_eq!(1, data.get_scripts().len());
    assert_eq!(ScriptType::Stub, data.get_scripts()[0].get_type());
}

#[test]
fn stub_with_non_static_namesake_is_rejected() {
    assert_eq!(ErrorKind::StubNotReplaceableByNonStatic, kind_of("(script stub void s (print \"a\"))\n(script startup s (print \"b\"))"));
    assert_eq!(ErrorKind::StubNotReplaceableByNonStatic, kind_of("(script stub short s 1)\n(script stub short s 2)"));
}

#[test]
fn stub_with_other_return_type_is_rejected() {
    let e = compile("(script stub short s 1)\n(script static long s 2)").unwrap_err();
    assert_eq!(ErrorKind::StubReturnMismatch, e.get_kind());
    assert_eq!(
        "cannot replace stub script 's' that returns 'short' with static script which returns 'long'",
        e.get_message()
    );
    assert_eq!((1, 1), e.get_position());
}

#[test]
fn target_gated_function() {
    let source = "(script startup s (custom_only))";
    let data = compile_on(CompileTarget::HaloCustomEdition, source).unwrap();
    let nodes = data.get_nodes();
    assert_eq!(Some(500), nodes[0].get_index());
    let e = compile_on(CompileTarget::HaloCEA, source).unwrap_err();
    assert_eq!(ErrorKind::UnknownFunction, e.get_kind());
    assert_eq!("function 'custom_only' is not defined", e.get_message());
    assert_eq!("test.hsc", e.get_file());
    assert_eq!((1, 19), e.get_position());
    assert_eq!(CompileErrorType::Error, e.get_error_type());
    assert_eq!("test.hsc:1:19: error: function 'custom_only' is not defined", e.to_string());
    assert_eq!(b"test.hsc\0".to_vec(), *e.get_file_cstr());
    assert_eq!(b"function 'custom_only' is not defined\0".to_vec(), *e.get_message_cstr());
}

#[test]
fn target_gated_global() {
    let source = "(global short g custom_global)";
    assert!(compile_on(CompileTarget::HaloCustomEdition, source).is_ok());
    // elsewhere the word is a literal, and no number
    assert_eq!(ErrorKind::BadLiteral, compile_on(CompileTarget::HaloCEGBX, source).unwrap_err().get_kind());
}

#[test]
fn script_parameters_need_a_target_that_has_them() {
    let source = "(global real two 2)\n(script static real (half (real a) (real b)) (/ (+ a b) two))";
    let data = compile(source).unwrap();
    let script = &data.get_scripts()[0];
    assert_eq!("half", script.get_name());
    assert_eq!(2, script.get_parameters().len());
    assert_eq!("a", script.get_parameters()[0].get_name());
    assert_eq!(b"b\0".to_vec(), *script.get_parameters()[1].get_name_cstr());
    assert_eq!(ValueType::Real, script.get_parameters()[1].get_value_type());
    assert_eq!((2, 42), (script.get_parameters()[1].get_line(), script.get_parameters()[1].get_column()));
    assert_eq!(0, script.get_parameters()[1].get_file());
    let e = compile_on(CompileTarget::HaloCustomEdition, source).unwrap_err();
    assert_eq!(ErrorKind::ScriptParametersUnsupported, e.get_kind());
    assert_eq!("function parameters are not supported in Halo: Custom Edition", e.get_message());
}

#[test]
fn script_parameter_rules() {
    assert_eq!(ErrorKind::ScriptParametersNotAllowed, kind_of("(script startup (s (real a)) (print \"x\"))"));
    assert_eq!(ErrorKind::ExpectedScriptName, kind_of("(script static void ((s) (real a)) (print \"x\"))"));
    assert_eq!(ErrorKind::BadScriptParameter, kind_of("(script static void (s a) (print \"x\"))"));
    assert_eq!(ErrorKind::BadScriptParameter, kind_of("(script static void (s (real)) (print \"x\"))"));
    assert_eq!(ErrorKind::BadScriptParameter, kind_of("(script static void (s (real (a))) (print \"x\"))"));
    assert_eq!(ErrorKind::BadScriptParameter, kind_of("(script static void (s (number a)) (print \"x\"))"));
    let sixteen = "(p real) ".repeat(0)
        + &(0..16).map(|i| format!("(real p{}) ", i)).collect::<String>();
    assert!(compile(&format!("(script static void (s {}) (print \"x\"))", sixteen)).is_ok());
    let seventeen = (0..17).map(|i| format!("(real p{}) ", i)).collect::<String>();
    let e = compile(&format!("(script static void (s {}) (print \"x\"))", seventeen)).unwrap_err();
    assert_eq!(ErrorKind::TooManyScriptParameters, e.get_kind());
    assert_eq!("only 16 script parameter(s) are supported in Halo: Combat Evolved Anniversary", e.get_message());
    // a name block without parameters declares none
    let data = compile("(script static void (s) (print \"x\"))").unwrap();
    assert_eq!(0, data.get_scripts()[0].get_parameters().len());
}

#[test]
fn every_emitted_node_has_a_type() {
    let data = compile(
        "(global short x 1)\n(script static void s (if (< x 2) (set x (+ x 1))) (sleep 30) (print \"done\"))",
    )
    .unwrap();
    for n in data.get_nodes().iter() {
        assert!(n.get_value_type() != ValueType::Unparsed);
        assert!(n.get_value_type() != ValueType::Passthrough);
    }
}

#[test]
fn a_value_without_a_type_is_rejected() {
    assert_eq!(ErrorKind::UnresolvedType, kind_of("(global unparsed x 5)"));
    assert_eq!(ErrorKind::UnresolvedType, kind_of("(global boolean b (= (begin (print \"x\") 2) 3))"));
    // a `begin` of one expression is that expression, which has a type
    assert!(compile("(global boolean b (= (begin 1) 2))").is_ok());
    let e = compile("(global unparsed x 5)").unwrap_err();
    assert_eq!("expression is left with the type 'unparsed'", e.get_message());
    assert_eq!((1, 20), e.get_position());
}

#[test]
fn calls_carry_the_index_of_what_they_name() {
    let data = compile(
        "(script static short one 1)\n(script static short two (one))\n(script startup s (sleep 1 two) (wake s) (print \"x\"))",
    )
    .unwrap();
    let nodes = data.get_nodes();
    let scripts = data.get_scripts();
    // script `two` calls script `one`
    let call = &nodes[scripts[1].get_first_node_index()];
    assert_eq!(NodeType::FunctionCall(false), call.get_type());
    assert_eq!(Some(0), call.get_index());
    assert_eq!("one", name_node(nodes, call).get_string_data().unwrap());
    // `s` is a begin of three calls
    let begin = &nodes[scripts[2].get_first_node_index()];
    assert_eq!(Some(0), begin.get_index());
    let sleep = &nodes[name_node(nodes, begin).get_next_node_index().unwrap()];
    assert_eq!(Some(19), sleep.get_index());
    let thirty = &nodes[name_node(nodes, sleep).get_next_node_index().unwrap()];
    assert_eq!(Some(NodeData::Short(1)), thirty.get_data());
    assert_eq!(None, thirty.get_string_data());
    let script_literal = &nodes[thirty.get_next_node_index().unwrap()];
    assert_eq!(ValueType::Script, script_literal.get_value_type());
    assert_eq!(Some(NodeData::Short(1)), script_literal.get_data());
    assert_eq!("two", script_literal.get_string_data().unwrap());
    let wake = &nodes[sleep.get_next_node_index().unwrap()];
    assert_eq!(Some(21), wake.get_index());
    let print = &nodes[wake.get_next_node_index().unwrap()];
    assert_eq!(Some(30), print.get_index());
    assert_eq!(None, print.get_next_node_index());
}

#[test]
fn argument_chain_visits_the_arguments_in_order() {
    let data = compile("(script static real s (+ 1 (+ 2 3) 4 (+ 5)))").unwrap();
    let nodes = data.get_nodes();
    let root = &nodes[0];
    assert_eq!(Some(NodeData::NodeOffset(1)), root.get_data());
    assert_eq!(None, root.get_next_node_index());
    // + 1 (+ 2 3) 4 (+ 5)
    assert_eq!(Some(2), nodes[1].get_next_node_index());
    assert_eq!(Some(NodeData::Real("1".to_owned())), nodes[2].get_data());
    assert_eq!(Some(3), nodes[2].get_next_node_index());
    assert_eq!(Some(NodeData::NodeOffset(4)), nodes[3].get_data());
    assert_eq!(Some(7), nodes[3].get_next_node_index());
    assert_eq!(Some(5), nodes[4].get_next_node_index());
    assert_eq!(Some(6), nodes[5].get_next_node_index());
    assert_eq!(None, nodes[6].get_next_node_index());
    assert_eq!(Some(NodeData::Real("4".to_owned())), nodes[7].get_data());
    assert_eq!(Some(8), nodes[7].get_next_node_index());
    assert_eq!(Some(NodeData::NodeOffset(9)), nodes[8].get_data());
    assert_eq!(None, nodes[8].get_next_node_index());
    assert_eq!(Some(10), nodes[9].get_next_node_index());
    assert_eq!(None, nodes[10].get_next_node_index());
    assert_eq!(11, nodes.len());
}

#[test]
fn a_call_without_arguments_has_a_name_node_that_points_nowhere() {
    let data = compile("(script static real s (real_value))").unwrap();
    let nodes = data.get_nodes();
    assert_eq!(2, nodes.len());
    assert_eq!(Some(NodeData::NodeOffset(1)), nodes[0].get_data());
    assert_eq!(None, nodes[1].get_next_node_index());
}

#[test]
fn indices_are_dense_and_references_match() {
    let data = compile(
        "(global short a 1)\n(global short b a)\n(global short c b)\n(script static short x c)\n(script static short y (x))\n(script static short z (y))",
    )
    .unwrap();
    let nodes = data.get_nodes();
    // scripts are emitted before globals
    assert_eq!(vec![0, 1, 3], data.get_scripts().iter().map(|s| s.get_first_node_index()).collect::<Vec<usize>>());
    assert_eq!(vec![5, 6, 7], data.get_globals().iter().map(|g| g.get_first_node_index()).collect::<Vec<usize>>());
    assert_eq!(Some(NodeData::Long(2)), nodes[0].get_data());
    assert_eq!(Some(0), nodes[1].get_index());
    assert_eq!(Some(1), nodes[3].get_index());
    assert_eq!(Some(NodeData::Long(0)), nodes[6].get_data());
    assert_eq!(Some(NodeData::Long(1)), nodes[7].get_data());
    assert_eq!("c", data.get_globals()[2].get_name());
    assert_eq!(ValueType::Short, data.get_globals()[2].get_value_type());
    assert_eq!(b"c\0".to_vec(), *data.get_globals()[2].get_name_cstr());
    assert_eq!((3, 1, 0), (data.get_globals()[2].get_line(), data.get_globals()[2].get_column(), data.get_globals()[2].get_file()));
}

#[test]
fn names_are_lowercase_and_case_does_not_matter() {
    let a = compile("(GLOBAL Short Eleven (+ 5 6))\n(Script Static VOID Hello (PRINT \"Hi\") (Set ELEVEN 3))").unwrap();
    let b = compile("(global short eleven (+ 5 6))\n(script static void hello (print \"hi\") (set eleven 3))").unwrap();
    assert_eq!("eleven", a.get_globals()[0].get_name());
    assert_eq!("hello", a.get_scripts()[0].get_name());
    let x = a.get_nodes();
    let y = b.get_nodes();
    assert_eq!(x.len(), y.len());
    for i in 0..x.len() {
        assert_eq!(x[i].get_type(), y[i].get_type());
        assert_eq!(x[i].get_value_type(), y[i].get_value_type());
        assert_eq!(x[i].get_data(), y[i].get_data());
        assert_eq!(x[i].get_string_data(), y[i].get_string_data());
        assert_eq!(x[i].get_next_node_index(), y[i].get_next_node_index());
        assert_eq!(x[i].get_index(), y[i].get_index());
    }
}

#[test]
fn capitals_are_kept_where_the_parameter_allows_them() {
    let data = compile("(script startup s (sound_play \"Sound\\Music\") (print \"Hello\"))").unwrap();
    let texts: Vec<Option<&str>> = data.get_nodes().iter().map(|n| n.get_string_data()).collect();
    assert!(texts.contains(&Some("Sound\\Music")));
    assert!(texts.contains(&Some("hello")));
}

#[test]
fn set_marks_its_variable() {
    let data = compile("(global short x 1)\n(script startup s (set x 2))").unwrap();
    let nodes = data.get_nodes();
    let set = &nodes[data.get_scripts()[0].get_first_node_index()];
    assert_eq!("set", name_node(nodes, set).get_string_data().unwrap());
    assert_eq!(ValueType::Void, set.get_value_type());
    let variable = &nodes[name_node(nodes, set).get_next_node_index().unwrap()];
    assert_eq!(NodeType::Primitive(PrimitiveType::Global), variable.get_type());
    assert_eq!(Some(0xFFFF), variable.get_index());
    assert_eq!(ValueType::Short, variable.get_value_type());
    assert_eq!(Some(NodeData::Long(0)), variable.get_data());
    let value = &nodes[variable.get_next_node_index().unwrap()];
    assert_eq!(Some(NodeData::Short(2)), value.get_data());
    assert_eq!(ValueType::Short, value.get_value_type());
}

#[test]
fn set_needs_a_global() {
    assert_eq!(ErrorKind::SetOnNonGlobal, kind_of("(script startup s (set x 2))"));
    assert_eq!(ErrorKind::SetOnNonGlobal, kind_of("(global short x 1)\n(script startup s (set (x) 2))"));
    let e = compile("(script startup s (set y 2))").unwrap_err();
    assert_eq!("parameter 'y' is not a global variable name", e.get_message());
}

#[test]
fn uninitialized_globals_are_warned_about() {
    let data = compile("(global short a b)\n(global short b 1)\n(global short c (+ a c))").unwrap();
    let warnings = data.get_warnings();
    assert_eq!(2, warnings.len());
    assert_eq!(ErrorKind::UninitializedGlobal, warnings[0].get_kind());
    assert_eq!(CompileErrorType::Warning, warnings[0].get_error_type());
    assert_eq!("use of uninitialized global 'b'", warnings[0].get_message());
    assert_eq!((1, 17), warnings[0].get_position());
    assert_eq!("use of uninitialized global 'c'", warnings[1].get_message());
    assert_eq!("test.hsc:3:22: warning: use of uninitialized global 'c'", warnings[1].to_string());
}

#[test]
fn top_level_errors() {
    assert_eq!(ErrorKind::ExpectedGlobalOrScript, kind_of("(print \"x\")"));
    assert_eq!(ErrorKind::IncompleteGlobal, kind_of("(global short x)"));
    assert_eq!(ErrorKind::ExtraneousToken, kind_of("(global short x 1 2)"));
    assert_eq!(ErrorKind::ExpectedGlobalName, kind_of("(global short (x) 1)"));
    assert_eq!(ErrorKind::BadGlobalType, kind_of("(global passthrough x 1)"));
    assert_eq!(ErrorKind::BadGlobalType, kind_of("(global number x 1)"));
    assert_eq!(ErrorKind::IncompleteScript, kind_of("(script)"));
    assert_eq!(ErrorKind::IncompleteScript, kind_of("(script static void s)"));
    assert_eq!(ErrorKind::IncompleteScript, kind_of("(script startup s)"));
    assert_eq!(ErrorKind::BadScriptKind, kind_of("(script sometimes s (print \"x\"))"));
    assert_eq!(ErrorKind::BadScriptReturnType, kind_of("(script static passthrough s (print \"x\"))"));
    assert_eq!(ErrorKind::BadScriptReturnType, kind_of("(script static number s (print \"x\"))"));
    assert_eq!(ErrorKind::ScriptNameReserved, kind_of("(script static void begin (print \"x\"))"));
    assert_eq!(ErrorKind::ScriptNameReserved, kind_of("(script static void IF (print \"x\"))"));
    assert_eq!(ErrorKind::ScriptNameReserved, kind_of("(script startup cond (print \"x\"))"));
    let e = compile("(global short x 1 2)").unwrap_err();
    assert_eq!((1, 19), e.get_position());
    let e = compile("(script static void s)").unwrap_err();
    assert_eq!("incomplete script definition, expected (script static <return type> <name> <expression(s)>)", e.get_message());
    let e = compile("(script startup s)").unwrap_err();
    assert_eq!("incomplete script definition, expected (script startup <name> <expression(s)>)", e.get_message());
}

#[test]
fn name_length_boundary() {
    let thirty_one = "a".repeat(31);
    let thirty_two = "a".repeat(32);
    assert!(compile(&format!("(global short {} 1)", thirty_one)).is_ok());
    assert!(compile(&format!("(script startup {} (print \"x\"))", thirty_one)).is_ok());
    let e = compile(&format!("(global short {} 1)", thirty_two)).unwrap_err();
    assert_eq!(ErrorKind::NameTooLong, e.get_kind());
    assert_eq!(format!("global name '{}' exceeds 31 characters in length", thirty_two), e.get_message());
    let e = compile(&format!("(script startup {} (print \"x\"))", thirty_two)).unwrap_err();
    assert_eq!(ErrorKind::NameTooLong, e.get_kind());
    assert_eq!(format!("script name '{}' exceeds 31 characters in length", thirty_two), e.get_message());
}

#[test]
fn duplicate_definitions_are_rejected() {
    let e = compile("(script static short s 1)\n(script static short s 2)").unwrap_err();
    assert_eq!(ErrorKind::DuplicateScript, e.get_kind());
    assert_eq!("multiple scripts 's' defined", e.get_message());
    assert_eq!((1, 1), e.get_position());
    let e = compile("(global short a 1)\n(global short b 1)\n(global long B 2)").unwrap_err();
    assert_eq!(ErrorKind::DuplicateGlobal, e.get_kind());
    assert_eq!("multiple globals 'b' defined", e.get_message());
    assert_eq!((2, 1), e.get_position());
}

#[test]
fn call_errors() {
    assert_eq!(ErrorKind::UnknownFunction, kind_of("(script startup s (nothing))"));
    let e = compile("(script startup s (print))").unwrap_err();
    assert_eq!(ErrorKind::TooFewArgs, e.get_kind());
    assert_eq!("function 'print' takes at least 1 parameter(s), got 0 instead", e.get_message());
    let e = compile("(script startup s (print \"a\" \"b\"))").unwrap_err();
    assert_eq!(ErrorKind::TooManyArgs, e.get_kind());
    assert_eq!("function 'print' takes at most 1 parameter(s) but extraneous parameter(s) were given", e.get_message());
    assert_eq!((1, 30), e.get_position());
    let e = compile("(global short x (truth 1))").unwrap_err();
    assert_eq!(ErrorKind::ConvertError, e.get_kind());
    assert_eq!("function 'truth' returns 'boolean' which cannot convert to 'short'", e.get_message());
    let e = compile("(global boolean b true)\n(global short x b)").unwrap_err();
    assert_eq!(ErrorKind::ConvertError, e.get_kind());
    assert_eq!("global 'b' is 'boolean' which cannot convert to 'short'", e.get_message());
    assert_eq!(ErrorKind::CondShape, kind_of("(script startup s (cond))"));
    assert_eq!(ErrorKind::CondShape, kind_of("(script startup s (cond ((= 1 1))))"));
    assert_eq!(ErrorKind::CondShape, kind_of("(script startup s (cond x))"));
    let e = compile("(global boolean b (+ 1 2))").unwrap_err();
    assert_eq!(ErrorKind::PassthroughTypeMismatch, e.get_kind());
    assert_eq!("passthrough parameters resolve to 'boolean', but function '+' takes only numeric parameters", e.get_message());
    let e = compile("(global boolean b (< \"a\" \"b\"))").unwrap_err();
    assert_eq!(ErrorKind::PassthroughTypeMismatch, e.get_kind());
    let e = compile("(global boolean t true)\n(global boolean b (< t t))").unwrap_err();
    assert_eq!("passthrough parameters resolve to 'boolean', but function '<' is an inequality operator", e.get_message());
}

#[test]
fn inequality_takes_difficulty_and_team() {
    assert!(compile("(global boolean b (< (game_difficulty_get) hard))").is_ok());
    assert!(compile("(global boolean b (< 1 2))").is_ok());
}

#[test]
fn optional_and_repeated_parameters() {
    assert!(compile("(script startup s (sleep 1))").is_ok());
    assert!(compile("(script static void t (print \"x\"))\n(script startup s (sleep 1 t))").is_ok());
    assert!(compile("(global real r (+ 1 2 3 4 5 6 7 8))").is_ok());
    assert_eq!(ErrorKind::TooManyArgs, kind_of("(script static void t (print \"x\"))\n(script startup s (sleep 1 t t))"));
}

#[test]
fn literals() {
    let data = compile(
        "(global boolean a on)\n(global boolean b 0)\n(global short c -32768)\n(global short d 32767)\n(global long e -2147483648)\n(global real f -1.5e3)\n(global game_difficulty g impossible)\n(global team h sentinel)\n(global string i \"Text\")\n(global real j .5)\n(global real k inf)",
    )
    .unwrap();
    let nodes = data.get_nodes();
    let data_of = |i: usize| nodes[data.get_globals()[i].get_first_node_index()].get_data();
    let text_of = |i: usize| nodes[data.get_globals()[i].get_first_node_index()].get_string_data();
    assert_eq!(Some(NodeData::Boolean(true)), data_of(0));
    assert_eq!(None, text_of(0));
    assert_eq!(Some(NodeData::Boolean(false)), data_of(1));
    assert_eq!(Some(NodeData::Short(-32768)), data_of(2));
    assert_eq!(Some(NodeData::Short(32767)), data_of(3));
    assert_eq!(Some(NodeData::Long(-2147483648)), data_of(4));
    assert_eq!(None, text_of(4));
    assert_eq!(Some(NodeData::Real("-1.5e3".to_owned())), data_of(5));
    assert_eq!(-1500.0, real_of(data_of(5)));
    assert_eq!(None, text_of(5));
    assert_eq!(Some(NodeData::Short(3)), data_of(6));
    assert_eq!(Some("impossible"), text_of(6));
    assert_eq!(Some(NodeData::Short(5)), data_of(7));
    assert_eq!(Some("sentinel"), text_of(7));
    assert_eq!(None, data_of(8));
    assert_eq!(Some("text"), text_of(8));
    assert_eq!(0.5, real_of(data_of(9)));
    assert_eq!(f32::INFINITY, real_of(data_of(10)));
}

#[test]
fn bad_literals() {
    assert_eq!(ErrorKind::BadLiteral, kind_of("(global short x 32768)"));
    assert_eq!(ErrorKind::BadLiteral, kind_of("(global short x -32769)"));
    assert_eq!(ErrorKind::BadLiteral, kind_of("(global long x 2147483648)"));
    assert_eq!(ErrorKind::BadLiteral, kind_of("(global boolean x yes)"));
    assert_eq!(ErrorKind::BadLiteral, kind_of("(global real x 1.5.2)"));
    assert_eq!(ErrorKind::BadLiteral, kind_of("(global real x e5)"));
    assert_eq!(ErrorKind::BadLiteral, kind_of("(global game_difficulty x legendary)"));
    assert_eq!(ErrorKind::BadLiteral, kind_of("(global team x unused10)"));
    assert_eq!(ErrorKind::BadLiteral, kind_of("(script startup s (wake nobody))"));
    assert_eq!(ErrorKind::BadLiteral, kind_of("(script startup s (wake print))"));
    assert_eq!(ErrorKind::BadLiteral, kind_of("(global special_form x 5)"));
    assert_eq!(ErrorKind::BadLiteral, kind_of("(script startup s (begin 5))"));
    let e = compile("(global short x print)").unwrap_err();
    assert_eq!(
        "cannot parse token 'print' as short and no global of this name defined; did you mean to call '(print)' as a function?",
        e.get_message()
    );
    let e = compile("(global short x five)").unwrap_err();
    assert_eq!(
        "cannot parse token 'five' as short and no global of this name defined (expected integer between [-32768,32767])",
        e.get_message()
    );
    let e = compile("(script startup s (wake print))").unwrap_err();
    assert_eq!("no script 'print' defined (a function is defined by this name, but it cannot be used here)", e.get_message());
}

#[test]
fn conversions_between_values() {
    assert!(compile("(global real r 1)\n(global short s r)\n(global long l r)").is_ok());
    assert!(compile("(global short s 1)\n(global real r s)").is_ok());
    assert_eq!(ErrorKind::ConvertError, kind_of("(global short s 1)\n(global long l s)"));
    assert!(compile("(global long l 1)\n(global short s l)\n(global real r l)").is_ok());
    assert!(compile("(global vehicle v none)\n(global unit u v)\n(global object o v)\n(global object_list ol v)").is_ok());
    assert_eq!(ErrorKind::ConvertError, kind_of("(global unit u none)\n(global vehicle v u)"));
    assert!(compile("(global object_name n none)\n(script startup s (object_destroy n))").is_ok());
    assert_eq!(ErrorKind::ConvertError, kind_of("(global unit_name n none)\n(script startup s (object_destroy n))"));
}

#[test]
fn scripts_and_globals_of_the_file_come_first() {
    // a script named like a function of the engine replaces it
    let data = compile("(script static void print (sleep 1))\n(script startup s (print))").unwrap();
    let nodes = data.get_nodes();
    let call = &nodes[data.get_scripts()[1].get_first_node_index()];
    assert_eq!(NodeType::FunctionCall(false), call.get_type());
    assert_eq!(Some(0), call.get_index());
    // and so does a global
    let data = compile("(global short cheat_deathless_player 1)\n(global short x cheat_deathless_player)").unwrap();
    let nodes = data.get_nodes();
    assert_eq!(Some(NodeData::Long(0)), nodes[data.get_globals()[1].get_first_node_index()].get_data());
    // a global of the engine has no index of its own
    let data = compile("(global boolean x cheat_deathless_player)").unwrap();
    assert_eq!(None, data.get_nodes()[0].get_data());
    assert_eq!(NodeType::Primitive(PrimitiveType::Global), data.get_nodes()[0].get_type());
}

#[test]
fn compiling_twice_gives_the_same() {
    let source = "(global short x (+ 1 2))\n(script static void s (cond ((= x 1) (print \"a\")) ((= x 2) (print \"b\"))))";
    let a = compile(source).unwrap();
    let b = compile(source).unwrap();
    assert_eq!(format!("{:?}", a), format!("{:?}", b));
}

#[test]
fn several_files_are_compiled_together() {
    let mut c = compiler(CompileTarget::HaloCEA);
    c.read_script_data("a.hsc", b"(global short x 1)").unwrap();
    c.read_script_data("b.hsc", b"(script startup s (nothing))").unwrap();
    assert_eq!(2, c.get_tokens().len());
    assert_eq!(1, c.get_tokens()[1].file);
    assert_eq!(CompileTarget::HaloCEA, c.get_target());
    assert_eq!(CompileEncoding::Windows1252, c.get_encoder());
    let e = c.compile_script_data().unwrap_err();
    assert_eq!("b.hsc", e.get_file());
    assert_eq!(0, c.get_tokens().len());
    let mut c = compiler(CompileTarget::HaloCEA);
    c.read_script_data("a.hsc", b"(global short x 1)").unwrap();
    c.read_script_data("b.hsc", b"(global short y x)").unwrap();
    let data = c.compile_script_data().unwrap();
    assert_eq!(vec!["a.hsc", "b.hsc"], data.get_files().iter().map(|f| f.as_str()).collect::<Vec<&str>>());
    assert_eq!(b"b.hsc\0".to_vec(), *data.get_files()[1].as_cstr());
    assert_eq!(1, data.get_nodes()[1].get_file());
    assert_eq!(1, data.get_globals()[1].get_file());
}

#[test]
fn a_file_that_cannot_be_read_changes_nothing() {
    let mut c = compiler(CompileTarget::HaloCEA);
    c.read_script_data("a.hsc", b"(global short x 1)").unwrap();
    let e = c.read_script_data("b.hsc", b"(global short y ").unwrap_err();
    assert_eq!(ErrorKind::UnterminatedBlock, e.get_kind());
    assert_eq!("b.hsc", e.get_file());
    assert_eq!(1, c.get_tokens().len());
    let data = c.compile_script_data().unwrap();
    assert_eq!(1, data.get_files().len());
}

#[test]
fn capitals_are_warned_about_when_asked() {
    let source = b"(global short one 1)\n(script static void S (PRINT \"Hi\") (cond ((= ONE 1) (print \"A\")) ((= one 2) (set One 3))))\n(global short Two one)\n(global short three TWO)";
    let mut c = compiler(CompileTarget::HaloCEA);
    assert!(!c.get_capital_warnings());
    c.read_script_data("t.hsc", source).unwrap();
    let quiet = c.compile_script_data().unwrap();
    assert_eq!(0, quiet.get_warnings().len());

    let mut c = compiler(CompileTarget::HaloCEA);
    c.set_capital_warnings(true);
    assert!(c.get_capital_warnings());
    c.read_script_data("t.hsc", source).unwrap();
    let loud = c.compile_script_data().unwrap();
    let warnings = loud.get_warnings();
    assert_eq!(
        vec![
            "t.hsc:4:21: warning: token 'TWO' contains uppercase characters and was made lowercase",
            "t.hsc:2:30: warning: token 'Hi' contains uppercase characters and was made lowercase",
            "t.hsc:2:46: warning: token 'ONE' contains uppercase characters and was made lowercase",
            "t.hsc:2:60: warning: token 'A' contains uppercase characters and was made lowercase",
            "t.hsc:2:82: warning: token 'One' contains uppercase characters and was made lowercase",
        ],
        warnings.iter().map(|w| w.to_string()).collect::<Vec<String>>()
    );
    assert!(warnings.iter().all(|w| w.get_kind() == ErrorKind::CaseChanged));
    assert!(warnings.iter().all(|w| w.get_error_type() == CompileErrorType::Warning));
    // nothing but the warnings differs
    assert_eq!(format!("{:?}", quiet.get_nodes()), format!("{:?}", loud.get_nodes()));
    assert_eq!(format!("{:?}", quiet.get_scripts()), format!("{:?}", loud.get_scripts()));
    assert_eq!(format!("{:?}", quiet.get_globals()), format!("{:?}", loud.get_globals()));
}
