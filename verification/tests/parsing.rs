use minilang::ast::{Ast, ExprNode};
use minilang::operator::Operator;
use minilang::parser::Parser;

fn parsed(src: &str) -> Parser {
    let mut parser = Parser::new(&src.as_bytes().to_vec()).unwrap();
    parser.main_loop();
    parser
}

fn error_messages(parser: &Parser) -> Vec<String> {
    parser
        .get_error_logger()
        .errors()
        .iter()
        .map(|e| e.message().clone())
        .collect()
}

#[test]
fn it_parses_one_definition() {
    let parser = parsed("def add(x y) x+y;");

    assert!(!parser.get_error_logger().has_errors());
    let asts = parser.get_asts();
    assert_eq!(asts.len(), 1);

    let Ast::Definition(func) = &asts[0];
    assert_eq!(func.get_function_name(), "add");
    assert_eq!(func.prototype().name().as_str(), "add");
    assert_eq!(func.prototype().args(), &vec!["x".to_string(), "y".to_string()]);

    let expected = ExprNode::create_binary_op(
        Operator::Plus,
        ExprNode::Variable("x".to_string()),
        ExprNode::Variable("y".to_string()),
    );
    assert_eq!(func.body(), &expected);
}

#[test]
fn it_recovers_from_a_missing_prototype_parenthesis() {
    let parser = parsed("def foo(x y 1+2; def ok(a) a;");

    assert_eq!(error_messages(&parser), vec!["Expected ')' in prototype".to_string()]);

    let asts = parser.get_asts();
    assert_eq!(asts.len(), 1);
    let Ast::Definition(func) = &asts[0];
    assert_eq!(func.get_function_name(), "ok");
}

#[test]
fn it_reports_a_missing_semicolon_and_continues() {
    let parser = parsed("def f(x) x");

    assert_eq!(error_messages(&parser), vec!["Missing ';'".to_string()]);
    assert_eq!(parser.get_asts().len(), 1);
}

#[test]
fn it_expects_def_at_top_level() {
    let parser = parsed("1 + 2;");

    let messages = error_messages(&parser);
    assert_eq!(messages[0], "Expected 'def'");
    assert_eq!(parser.get_asts().len(), 0);
}

#[test]
fn it_reports_each_prototype_shape_error() {
    assert_eq!(
        error_messages(&parsed("def (x) 1;"))[0],
        "Expected function name in prototype"
    );
    assert_eq!(error_messages(&parsed("def f x;"))[0], "Expected '(' in prototype");
    assert_eq!(error_messages(&parsed("def f(x 1;"))[0], "Expected ')' in prototype");
}

#[test]
fn it_reports_expression_errors() {
    assert_eq!(error_messages(&parsed("def f() ;"))[0], "Expected identifier or number");
    assert_eq!(error_messages(&parsed("def f() (1;"))[0], "Missing ')'");
    assert_eq!(
        error_messages(&parsed("def f() g(1 2;"))[0],
        "Expected ')' or ',' in argument list"
    );
}

#[test]
fn it_reports_conditional_errors() {
    assert_eq!(error_messages(&parsed("def f(x) if x 1 else 2;"))[0], "Expected 'then'");
    assert_eq!(error_messages(&parsed("def f(x) if x then 1 2;"))[0], "Expected 'else'");
}

#[test]
fn it_tags_diagnostics_with_their_line() {
    let parser = parsed("\n\n1;");

    let errors = parser.get_error_logger().errors();
    assert_eq!(errors[0].line_number(), 3);
}

#[test]
fn it_parses_conditionals_calls_and_negation() {
    let parser = parsed("def f(x) if x < 10 then g(x, 1) else -x;");

    assert!(!parser.get_error_logger().has_errors());
    let asts = parser.get_asts();
    assert_eq!(asts.len(), 1);
    let Ast::Definition(func) = &asts[0];

    let expected = ExprNode::create_if_then_else(
        ExprNode::create_binary_op(
            Operator::Less,
            ExprNode::Variable("x".to_string()),
            ExprNode::Number("10".to_string()),
        ),
        ExprNode::create_call(
            "g".to_string(),
            vec![ExprNode::Variable("x".to_string()), ExprNode::Number("1".to_string())],
        ),
        ExprNode::create_unary_op(Operator::Neg, ExprNode::Variable("x".to_string())),
    );
    assert_eq!(func.body(), &expected);
}

#[test]
fn it_parses_unary_minus_over_a_whole_expression() {
    let parser = parsed("def f() -1+2;");

    assert!(!parser.get_error_logger().has_errors());
    let Ast::Definition(func) = &parser.get_asts()[0];

    let expected = ExprNode::create_unary_op(
        Operator::Neg,
        ExprNode::create_binary_op(
            Operator::Plus,
            ExprNode::Number("1".to_string()),
            ExprNode::Number("2".to_string()),
        ),
    );
    assert_eq!(func.body(), &expected);
}

#[test]
fn it_folds_operators_left_to_right_within_a_tier() {
    let parser = parsed("def f() 1-2-3;");

    let Ast::Definition(func) = &parser.get_asts()[0];
    let expected = ExprNode::create_binary_op(
        Operator::Minus,
        ExprNode::create_binary_op(
            Operator::Minus,
            ExprNode::Number("1".to_string()),
            ExprNode::Number("2".to_string()),
        ),
        ExprNode::Number("3".to_string()),
    );
    assert_eq!(func.body(), &expected);
}

#[test]
fn it_applies_operator_precedence() {
    let parser = parsed("def f() 1 < 2 + 3 * 4;");

    let Ast::Definition(func) = &parser.get_asts()[0];
    let expected = ExprNode::create_binary_op(
        Operator::Less,
        ExprNode::Number("1".to_string()),
        ExprNode::create_binary_op(
            Operator::Plus,
            ExprNode::Number("2".to_string()),
            ExprNode::create_binary_op(
                Operator::Mul,
                ExprNode::Number("3".to_string()),
                ExprNode::Number("4".to_string()),
            ),
        ),
    );
    assert_eq!(func.body(), &expected);
}

#[test]
fn it_parses_an_empty_argument_list() {
    let parser = parsed("def f() g();");

    assert!(!parser.get_error_logger().has_errors());
    let Ast::Definition(func) = &parser.get_asts()[0];
    assert_eq!(func.body(), &ExprNode::create_call("g".to_string(), vec![]));
    assert_eq!(func.prototype().args(), &Vec::<String>::new());
}

#[test]
fn it_keeps_duplicate_parameter_names() {
    let parser = parsed("def f(x x) x;");

    assert!(!parser.get_error_logger().has_errors());
    let Ast::Definition(func) = &parser.get_asts()[0];
    assert_eq!(func.prototype().args(), &vec!["x".to_string(), "x".to_string()]);
}
