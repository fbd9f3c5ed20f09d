use milton::controlunit::ControlUnit;
use milton::declare::Declared;
use milton::expression::Expression;
use milton::parser::parse;
use milton::preprocess::preprocess;
use milton::std_expr::{parse_std, preprocessed_expressions};
use milton::util::{error_code, parse_i32, replace_n, split_first};

#[test]
fn t1() {
    let (a, b) = parse_std();
    println!("{:#?}\n{:#?}", a, b);
    assert_eq!(a.len(), 2);
}

fn run_bytecode(bytecode: &[u8], input: &str) -> (u32, Vec<u8>) {
    let data_size = u32::from_le_bytes(bytecode[8..12].try_into().unwrap()) as usize;
    let mut data_mem = bytecode[..data_size].to_vec();
    data_mem.resize(65536, 0);
    let mut instructions_mem: Vec<u32> = bytecode[data_size..]
        .chunks(4)
        .map(|v| u32::from_le_bytes(v.try_into().unwrap()))
        .collect();
    instructions_mem.resize(65536, 0);
    let mut cu = ControlUnit::new(
        data_mem.try_into().unwrap(),
        instructions_mem.try_into().unwrap(),
    );
    cu.datapath.input = input.bytes().collect();
    while !cu.tick() {}
    (cu.datapath.acc, cu.datapath.output)
}

#[test]
fn compile_and_run_inc() {
    let source = "(fn inc (x) (+ x 1)) (inc 41)".to_string();
    let pe = preprocessed_expressions(source).unwrap();
    let (bytecode, instructions_count, bytes_count) = milton::compiler::compile(pe).unwrap();
    assert!(instructions_count > 0);
    assert_eq!(bytes_count, bytecode.len());
    let (acc, _) = run_bytecode(&bytecode, "");
    assert_eq!(acc, 42);
}

#[test]
fn compile_and_run_case_and_let() {
    let source = "(let a 5 (case (- a 5) 111 222))".to_string();
    let pe = preprocessed_expressions(source).unwrap();
    let (bytecode, _, _) = milton::compiler::compile(pe).unwrap();
    let (acc, _) = run_bytecode(&bytecode, "");
    // condition is zero, so the second branch is taken
    assert_eq!(acc, 222);
}

#[test]
fn compile_and_run_for_sums_body_values() {
    // i runs 1,2,3,4,5 while (i - 5) is nonzero after the update;
    // the body value i is accumulated, and the loop result is the sum.
    let source = "(for i (+ i 1) (- i 5) i)".to_string();
    let pe = preprocessed_expressions(source).unwrap();
    let (bytecode, _, _) = milton::compiler::compile(pe).unwrap();
    let (acc, _) = run_bytecode(&bytecode, "");
    assert_eq!(acc, 1 + 2 + 3 + 4);
}

#[test]
fn compile_and_run_echo() {
    let source = "(printc (readc))".to_string();
    let pe = preprocessed_expressions(source).unwrap();
    let (bytecode, _, _) = milton::compiler::compile(pe).unwrap();
    let (_, output) = run_bytecode(&bytecode, "Z");
    assert_eq!(output, b"Z".to_vec());
}

#[test]
fn parse_builds_the_expected_shapes() {
    let mut declared = Declared::new();
    declared.fn_def("f", 2).unwrap();
    let exprs = parse("(f 1 'A') (f \"hi\" x)".to_string(), &mut declared);
    // x is not declared, so the second expression fails
    assert!(exprs.is_err());
    let mut declared = Declared::new();
    declared.fn_def("f", 2).unwrap();
    let exprs = parse("(f 1 'A')".to_string(), &mut declared).unwrap();
    assert_eq!(exprs.len(), 1);
    match &exprs[0] {
        Expression::Fn { name, args } => {
            assert_eq!(name, "f");
            assert_eq!(args.len(), 2);
            assert!(matches!(args[0], Expression::Value(1)));
            assert!(matches!(args[1], Expression::Value(65)));
        }
        other => panic!("unexpected shape: {:?}", other),
    }
}

#[test]
fn parse_string_literal_keeps_text() {
    let mut declared = Declared::new();
    declared.fn_def("f", 1).unwrap();
    let exprs = parse("(f \"hi there\")".to_string(), &mut declared).unwrap();
    match &exprs[0] {
        Expression::Fn { args, .. } => match &args[0] {
            Expression::Str(s) => assert_eq!(s, "hi there"),
            other => panic!("unexpected: {:?}", other),
        },
        other => panic!("unexpected: {:?}", other),
    }
}

#[test]
fn undeclared_reference_is_reported() {
    let mut declared = Declared::new();
    let r = parse("(nope 1)".to_string(), &mut declared);
    let msg = r.unwrap_err();
    assert!(msg.starts_with("Variable 'nope' did not declared: "));
}

#[test]
fn duplicate_declaration_is_reported() {
    let mut declared = Declared::new();
    declared.var_dec("x").unwrap();
    let err = declared.var_dec("x").unwrap_err();
    assert_eq!(err, "Variable or function name 'x' is already declared");
    let err2 = declared.fn_def("x", 1).unwrap_err();
    assert_eq!(err2, "Variable or function name 'x' is already declared");
}

#[test]
fn undeclaring_an_unknown_variable_is_reported() {
    let mut declared = Declared::new();
    let err = declared.var_undec("ghost_name").unwrap_err();
    assert_eq!(err, "Undeclaring variable 'ghost_name' that did not declare");
}

#[test]
fn function_scope_hides_enclosing_variables() {
    let mut declared = Declared::new();
    // y is a let variable of the outer scope; the body of g must not see it
    let r = parse("(let y 1 (fn g (z) (+ y z)))".to_string(), &mut declared);
    assert!(r.is_err());
    let mut declared2 = Declared::new();
    declared2.fn_def("+", 2).unwrap();
    let r2 = parse("(let y 1 (fn g (z) (+ z z)))".to_string(), &mut declared2);
    assert!(r2.is_ok());
}

#[test]
fn preprocess_hoists_nested_definitions() {
    let mut declared = Declared::new();
    let exprs = parse(
        "(let a (fn h (q) q) (h a))".to_string(),
        &mut declared,
    )
    .unwrap();
    let pre = preprocess(exprs);
    assert_eq!(pre.fn_defs.len(), 1);
    assert!(matches!(pre.fn_defs[0], Expression::FnDef { .. }));
    // the definition's old position now holds the constant zero
    match &pre.main[0] {
        Expression::VarDef { init, .. } => {
            assert!(matches!(**init, Expression::Value(0)));
        }
        other => panic!("unexpected: {:?}", other),
    }
}

#[test]
fn compile_rejects_a_non_definition_in_the_definition_list() {
    let pre = milton::preprocess::Preprocessed {
        fn_defs: vec![Expression::Value(1)],
        main: vec![],
    };
    let err = milton::compiler::compile(pre).unwrap_err();
    assert_eq!(err, "There must be function definition");
}

#[test]
fn compile_rejects_an_unbound_name() {
    let pre = milton::preprocess::Preprocessed {
        fn_defs: vec![],
        main: vec![Expression::Var("loose".to_string())],
    };
    assert!(milton::compiler::compile(pre).is_err());
}

#[test]
fn replace_n_spares_string_literals() {
    let s = "a\nb\"c\nd\"e\nf".to_string();
    assert_eq!(replace_n(s), "a b\"c\nd\"e f");
}

#[test]
fn error_code_takes_at_most_thirty_characters() {
    assert_eq!(error_code("short"), "short");
    let long = "x".repeat(50);
    assert_eq!(error_code(&long), "x".repeat(30));
}

#[test]
fn split_first_splits_at_the_first_delimiter() {
    let (a, b) = split_first(
        "name rest)",
        &[' ', ')'],
        milton::expression::ExpressionType::FnOrVar,
    )
    .unwrap();
    assert_eq!(a, "name");
    assert_eq!(b, " rest)");
    let err = split_first(
        "nodelimiter",
        &[','],
        milton::expression::ExpressionType::Number,
    )
    .unwrap_err();
    assert_eq!(err, "A number was expected here: nodelimiter...");
}

#[test]
fn parse_i32_handles_signs_zeros_and_range() {
    assert_eq!(parse_i32("42"), Some(42));
    assert_eq!(parse_i32("+42"), Some(42));
    assert_eq!(parse_i32("-42"), Some(-42));
    assert_eq!(parse_i32("0000000000000042"), Some(42));
    assert_eq!(parse_i32("2147483647"), Some(i32::MAX));
    assert_eq!(parse_i32("-2147483648"), Some(i32::MIN));
    assert_eq!(parse_i32("2147483648"), None);
    assert_eq!(parse_i32("-2147483649"), None);
    assert_eq!(parse_i32(""), None);
    assert_eq!(parse_i32("-"), None);
    assert_eq!(parse_i32("12a"), None);
}

#[test]
fn missing_token_messages_carry_a_location_hint() {
    let mut declared = Declared::new();
    let err = parse("(let x".to_string(), &mut declared).unwrap_err();
    assert_eq!(err, "A variable definition was expected here: x...");
}

#[test]
fn parse_of_trivial_input_returns_nothing() {
    let mut declared = Declared::new();
    assert_eq!(parse("".to_string(), &mut declared).unwrap().len(), 0);
    let mut declared = Declared::new();
    // a source that does not start with a parenthesized form parses to nothing
    assert_eq!(parse("   stray".to_string(), &mut declared).unwrap().len(), 0);
}

#[test]
fn parse_keeps_definition_names_and_arities() {
    let mut declared = Declared::new();
    let exprs = parse("(fn two (a b) a)".to_string(), &mut declared).unwrap();
    match &exprs[0] {
        Expression::FnDef { name, arguments, .. } => {
            assert_eq!(name, "two");
            assert_eq!(arguments, &vec!["a".to_string(), "b".to_string()]);
        }
        other => panic!("unexpected: {:?}", other),
    }
    // the table now knows the new function's arity: a call with both
    // arguments parses, and the body of a later definition may use it
    let more = parse("(two 1 2)".to_string(), &mut declared).unwrap();
    match &more[0] {
        Expression::Fn { name, args } => {
            assert_eq!(name, "two");
            assert_eq!(args.len(), 2);
        }
        other => panic!("unexpected: {:?}", other),
    }
}

#[test]
fn preprocess_keeps_plain_expressions_unchanged() {
    let pre = preprocess(vec![Expression::Value(5)]);
    assert_eq!(pre.fn_defs.len(), 0);
    assert!(matches!(pre.main[0], Expression::Value(5)));
}
