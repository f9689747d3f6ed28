use minilang::ast::{Ast, ExprNode, Function, Prototype};
use minilang::code_generator::CodeGenerator;
use minilang::operator::Operator;

fn generate(asts: Vec<Ast>) -> String {
    let mut generator = CodeGenerator::new(asts);
    generator.run();
    generator.output().join("")
}

fn add_function() -> Function {
    Function::new(
        Prototype::new("add".to_string(), vec!["x".to_string(), "y".to_string()]),
        ExprNode::create_binary_op(
            Operator::Plus,
            ExprNode::Variable("x".to_string()),
            ExprNode::Variable("y".to_string()),
        ),
    )
}

#[test]
fn it_emits_a_full_module_for_one_definition() {
    let text = generate(vec![Ast::Definition(add_function())]);

    assert_eq!(
        text,
        "(module\n(func $add (param $x f32) (param $y f32) (result f32)\nlocal.get $x\nlocal.get $y\nf32.add\n)\n(export \"add\" (func $add))\n)\n"
    );
}

#[test]
fn it_emits_an_empty_module_for_no_definitions() {
    assert_eq!(generate(vec![]), "(module\n)\n");
}

#[test]
fn it_emits_exports_in_definition_order() {
    let second = Function::new(
        Prototype::new("one".to_string(), vec![]),
        ExprNode::Number("1".to_string()),
    );
    let text = generate(vec![Ast::Definition(add_function()), Ast::Definition(second)]);

    let add_pos = text.find("(export \"add\" (func $add))").unwrap();
    let one_pos = text.find("(export \"one\" (func $one))").unwrap();
    assert!(add_pos < one_pos);
    assert!(text.contains("(func $one (result f32)\nf32.const 1\n)\n"));
}

#[test]
fn it_translates_builtin_callees_to_instructions() {
    let func = Function::new(
        Prototype::new("f".to_string(), vec!["x".to_string()]),
        ExprNode::create_call("sqrt".to_string(), vec![ExprNode::Variable("x".to_string())]),
    );
    let text = generate(vec![Ast::Definition(func)]);

    assert!(text.contains("local.get $x\nf32.sqrt\n"));
    assert!(!text.contains("call $sqrt"));
}

#[test]
fn it_emits_calls_for_unknown_callees() {
    let func = Function::new(
        Prototype::new("f".to_string(), vec![]),
        ExprNode::create_call(
            "helper".to_string(),
            vec![ExprNode::Number("1".to_string()), ExprNode::Number("2".to_string())],
        ),
    );
    let text = generate(vec![Ast::Definition(func)]);

    assert!(text.contains("f32.const 1\nf32.const 2\ncall $helper\n"));
}

#[test]
fn it_emits_structured_conditionals() {
    let func = Function::new(
        Prototype::new("f".to_string(), vec!["x".to_string()]),
        ExprNode::create_if_then_else(
            ExprNode::Variable("x".to_string()),
            ExprNode::Number("1".to_string()),
            ExprNode::Number("2".to_string()),
        ),
    );
    let text = generate(vec![Ast::Definition(func)]);

    assert!(text.contains(
        "local.get $x\nif (result f32)\nf32.const 1\nelse\nf32.const 2\nend\n"
    ));
}

#[test]
fn it_knows_every_builtin() {
    for (name, instr) in [
        ("sqrt", "f32.sqrt\n"),
        ("ceil", "f32.ceil\n"),
        ("floor", "f32.floor\n"),
        ("trunc", "f32.trunc\n"),
        ("nearest", "f32.nearest\n"),
        ("abs", "f32.abs\n"),
        ("neg", "f32.neg\n"),
    ] {
        assert_eq!(CodeGenerator::builtin_funcs(&name.to_string()), Some(instr.to_string()));
    }
    assert_eq!(CodeGenerator::builtin_funcs(&"other".to_string()), None);
}

#[test]
fn it_renders_every_operator_mnemonic() {
    let cases = [
        (Operator::Plus, "f32.add\n"),
        (Operator::Minus, "f32.sub\n"),
        (Operator::Mul, "f32.mul\n"),
        (Operator::Div, "f32.div\n"),
        (Operator::Or, "i32.or\n"),
        (Operator::And, "i32.and\n"),
        (Operator::Greater, "f32.gt\n"),
        (Operator::Less, "f32.lt\n"),
        (Operator::Equal, "f32.eq\n"),
        (Operator::NotEq, "f32.ne\n"),
        (Operator::Neg, "f32.neg\n"),
    ];
    for (op, text) in cases {
        assert_eq!(op.to_wat(), text);
    }
}

#[test]
fn it_negates_with_the_floating_point_instruction() {
    let func = Function::new(
        Prototype::new("f".to_string(), vec!["x".to_string()]),
        ExprNode::create_unary_op(Operator::Neg, ExprNode::Variable("x".to_string())),
    );
    let text = generate(vec![Ast::Definition(func)]);

    assert!(text.contains("local.get $x\nf32.neg\n"));
}
