use adder_treesitter_cranelift::language::error::{CalcErrorKind, SourceSpan};
use adder_treesitter_cranelift::language::expr::{BinaryOpKind, Expr};
use adder_treesitter_cranelift::language::syntax::{collect_error_nodes, SyntaxNode};
use adder_treesitter_cranelift::language::Calculator;

fn calculator() -> Calculator {
    Calculator::new().expect("the code generator starts")
}

fn number(start: usize, end: usize) -> SyntaxNode {
    SyntaxNode::new("number", start, end)
}

fn operator(at: usize) -> SyntaxNode {
    SyntaxNode::new("op", at, at + 1).with_field("operator")
}

// The tree of `left op right`, where the operator stands at `at`.
fn binary(left: SyntaxNode, at: usize, right: SyntaxNode) -> SyntaxNode {
    SyntaxNode::new("binary_expression", left.start_byte(), right.end_byte())
        .with_child(left.with_field("left"))
        .with_child(operator(at))
        .with_child(right.with_field("right"))
}

#[test]
fn a_number_is_lowered_to_its_integer() {
    let calc = calculator();
    assert_eq!(calc.node_to_expr("42", &number(0, 2)).unwrap(), Expr::Integer(42));
    assert_eq!(calc.node_to_expr("+7", &number(0, 2)).unwrap(), Expr::Integer(7));
    assert_eq!(calc.node_to_expr("x-42y", &number(1, 4)).unwrap(), Expr::Integer(-42));
    assert_eq!(
        calc.node_to_expr("-9223372036854775808", &number(0, 20)).unwrap(),
        Expr::Integer(i64::MIN)
    );
}

#[test]
fn a_number_out_of_range_is_a_number_error() {
    let calc = calculator();
    let text = "9223372036854775808";
    let error = calc.node_to_expr(text, &number(0, 19)).unwrap_err();
    assert!(matches!(&error.kind, CalcErrorKind::NumberError(d) if d == "Failed to parse integer"));
    assert_eq!(error.span, SourceSpan { offset: 0, length: 19 });
    assert_eq!(error.help.as_deref(), Some("Make sure the number is a valid integer"));
    assert_eq!(error.src.name, "calculator");
    assert_eq!(error.src.source, text);
    assert_eq!(error.message(), "Calculator error: Invalid number: Failed to parse integer");
}

#[test]
fn a_number_that_is_no_number_is_a_number_error() {
    let calc = calculator();
    for text in ["", "-", "+", "1a", " 1", "1 ", "--1", "é"] {
        let node = number(0, text.len());
        let error = calc.node_to_expr(text, &node).unwrap_err();
        assert!(matches!(error.kind, CalcErrorKind::NumberError(_)), "{:?}", text);
    }
    // A span that does not lie in the text holds no number either.
    let error = calc.node_to_expr("12", &number(1, 5)).unwrap_err();
    assert!(matches!(error.kind, CalcErrorKind::NumberError(_)));
    assert_eq!(error.span, SourceSpan { offset: 1, length: 4 });
}

#[test]
fn a_float_is_lowered_to_the_bits_of_its_number() {
    let calc = calculator();
    let node = SyntaxNode::new("float", 0, 4).with_float_value(42.5f64.to_bits());
    assert_eq!(calc.node_to_expr("42.5", &node).unwrap(), Expr::Float(42.5f64.to_bits()));
}

#[test]
fn a_float_without_number_is_a_number_error() {
    let calc = calculator();
    let error = calc.node_to_expr("4.2.5", &SyntaxNode::new("float", 0, 5)).unwrap_err();
    assert!(matches!(&error.kind, CalcErrorKind::NumberError(d) if d == "Failed to parse float"));
    assert_eq!(
        error.help.as_deref(),
        Some("Make sure the number is a valid floating point number")
    );
}

#[test]
fn wrappers_stand_for_their_first_child() {
    let calc = calculator();
    let tree = SyntaxNode::new("source", 0, 1)
        .with_child(SyntaxNode::new("expression", 0, 1).with_child(number(0, 1)));
    assert_eq!(calc.node_to_expr("7", &tree).unwrap(), Expr::Integer(7));
}

#[test]
fn an_empty_wrapper_is_a_parse_error() {
    let calc = calculator();
    let error = calc.node_to_expr("", &SyntaxNode::new("source", 0, 0)).unwrap_err();
    assert!(matches!(&error.kind, CalcErrorKind::ParseError(d) if d == "Empty expression"));
    assert_eq!(error.help.as_deref(), Some("Expression cannot be empty"));
    assert_eq!(error.message(), "Calculator error: Invalid syntax");

    let error = calc.node_to_expr("  ", &SyntaxNode::new("expression", 1, 2)).unwrap_err();
    assert!(matches!(&error.kind, CalcErrorKind::ParseError(d) if d == "Empty expression node"));
    assert_eq!(error.help.as_deref(), Some("Expression node must contain a value"));
    assert_eq!(error.span, SourceSpan { offset: 1, length: 1 });
}

#[test]
fn parentheses_hold_their_inner_field() {
    let calc = calculator();
    let tree = SyntaxNode::new("parenthesized_expression", 0, 3)
        .with_child(SyntaxNode::new("(", 0, 1))
        .with_child(number(1, 2).with_field("inner"))
        .with_child(SyntaxNode::new(")", 2, 3));
    assert_eq!(
        calc.node_to_expr("(5)", &tree).unwrap(),
        Expr::Parenthesized(Box::new(Expr::Integer(5)))
    );
}

#[test]
fn parentheses_without_inner_field_are_a_parse_error() {
    let calc = calculator();
    let tree = SyntaxNode::new("parenthesized_expression", 0, 2)
        .with_child(SyntaxNode::new("(", 0, 1))
        .with_child(SyntaxNode::new(")", 1, 2));
    let error = calc.node_to_expr("()", &tree).unwrap_err();
    assert!(matches!(&error.kind, CalcErrorKind::ParseError(d) if d == "Empty parentheses"));
    assert_eq!(error.help.as_deref(), Some("Parentheses cannot be empty"));
    assert_eq!(error.span, SourceSpan { offset: 0, length: 2 });
}

#[test]
fn each_operator_text_gives_its_kind() {
    let calc = calculator();
    for (text, kind) in [
        ("1+2", BinaryOpKind::Add),
        ("1-2", BinaryOpKind::Subtract),
        ("1*2", BinaryOpKind::Multiply),
        ("1/2", BinaryOpKind::Divide),
    ] {
        let tree = binary(number(0, 1), 1, number(2, 3));
        assert_eq!(
            calc.node_to_expr(text, &tree).unwrap(),
            Expr::BinaryOp {
                left: Box::new(Expr::Integer(1)),
                op: kind,
                right: Box::new(Expr::Integer(2)),
            }
        );
    }
}

#[test]
fn another_operator_text_is_an_invalid_operator() {
    let calc = calculator();
    let tree = SyntaxNode::new("binary_expression", 0, 4)
        .with_child(number(0, 1).with_field("left"))
        .with_child(SyntaxNode::new("op", 1, 3).with_field("operator"))
        .with_child(number(3, 4).with_field("right"));
    let error = calc.node_to_expr("1**2", &tree).unwrap_err();
    assert!(matches!(&error.kind, CalcErrorKind::InvalidOperator(op) if op == "**"));
    assert_eq!(error.message(), "Calculator error: Invalid operator: **");
    assert_eq!(error.span, SourceSpan { offset: 0, length: 4 });
}

#[test]
fn a_binary_node_misses_its_fields_in_order() {
    let calc = calculator();
    let bare = SyntaxNode::new("binary_expression", 0, 3);
    let error = calc.node_to_expr("1+2", &bare).unwrap_err();
    assert!(matches!(&error.kind, CalcErrorKind::ParseError(d) if d == "Missing left operand"));
    assert_eq!(error.help.as_deref(), Some("Binary expression must have a left operand"));

    let with_left = SyntaxNode::new("binary_expression", 0, 3)
        .with_child(number(0, 1).with_field("left"));
    let error = calc.node_to_expr("1+2", &with_left).unwrap_err();
    assert!(matches!(&error.kind, CalcErrorKind::ParseError(d) if d == "Missing operator"));
    assert_eq!(error.help.as_deref(), Some("Binary expression must have an operator"));

    let with_operator = SyntaxNode::new("binary_expression", 0, 3)
        .with_child(number(0, 1).with_field("left"))
        .with_child(operator(1));
    let error = calc.node_to_expr("1+2", &with_operator).unwrap_err();
    assert!(matches!(&error.kind, CalcErrorKind::ParseError(d) if d == "Missing right operand"));
    assert_eq!(error.help.as_deref(), Some("Binary expression must have a right operand"));
}

#[test]
fn a_failing_left_operand_comes_before_a_bad_operator() {
    let calc = calculator();
    let tree = SyntaxNode::new("binary_expression", 0, 3)
        .with_child(number(0, 1).with_field("left"))
        .with_child(operator(1))
        .with_child(number(2, 3).with_field("right"));
    let error = calc.node_to_expr("a%b", &tree).unwrap_err();
    assert!(matches!(error.kind, CalcErrorKind::NumberError(_)));
    assert_eq!(error.span, SourceSpan { offset: 0, length: 1 });
}

#[test]
fn an_operator_outside_the_text_counts_as_missing() {
    let calc = calculator();
    let tree = SyntaxNode::new("binary_expression", 0, 3)
        .with_child(number(0, 1).with_field("left"))
        .with_child(SyntaxNode::new("op", 7, 8).with_field("operator"))
        .with_child(number(2, 3).with_field("right"));
    let error = calc.node_to_expr("1+2", &tree).unwrap_err();
    assert!(matches!(&error.kind, CalcErrorKind::ParseError(d) if d == "Missing operator"));
}

#[test]
fn an_unknown_node_is_a_parse_error() {
    let calc = calculator();
    let error = calc.node_to_expr("x", &SyntaxNode::new("identifier", 0, 1)).unwrap_err();
    assert!(
        matches!(&error.kind, CalcErrorKind::ParseError(d) if d == "Unexpected node type 'identifier'")
    );
    assert_eq!(
        error.help.as_deref(),
        Some("Expression must be a number, float, or binary operation")
    );
}

#[test]
fn an_error_node_quotes_its_text() {
    let calc = calculator();
    let error = calc.node_to_expr("2 +", &SyntaxNode::new("ERROR", 2, 3)).unwrap_err();
    assert!(matches!(&error.kind, CalcErrorKind::ParseError(d) if d == "Syntax error near '+'"));
    assert_eq!(error.help.as_deref(), Some("Check the expression syntax."));
    assert_eq!(error.span, SourceSpan { offset: 2, length: 1 });

    // Inside a character there is no text to quote.
    let error = calc.node_to_expr("é", &SyntaxNode::new("ERROR", 0, 1)).unwrap_err();
    assert!(
        matches!(&error.kind, CalcErrorKind::ParseError(d) if d == "Syntax error near 'Syntax error'")
    );
}

#[test]
fn error_nodes_are_collected_a_node_before_its_children() {
    let tree = SyntaxNode::new("source", 0, 9)
        .with_child(
            SyntaxNode::new("ERROR", 0, 4)
                .with_child(number(0, 1))
                .with_child(SyntaxNode::new("ERROR", 2, 3)),
        )
        .with_child(number(4, 5))
        .with_child(SyntaxNode::new("ERROR", 6, 9));
    let mut errors = Vec::new();
    collect_error_nodes(&tree, &mut errors);
    let spans: Vec<(usize, usize)> =
        errors.iter().map(|node| (node.start_byte(), node.end_byte())).collect();
    assert_eq!(spans, vec![(0, 4), (2, 3), (6, 9)]);
}

#[test]
fn the_first_error_node_gives_the_diagnostic() {
    let calc = calculator();
    let tree = SyntaxNode::new("source", 0, 5)
        .with_child(number(0, 1))
        .with_child(SyntaxNode::new("ERROR", 2, 3))
        .with_child(SyntaxNode::new("ERROR", 4, 5));
    let error = calc.validate("1 + )", &tree).unwrap_err();
    assert!(matches!(&error.kind, CalcErrorKind::ParseError(d) if d == "Syntax error near '+'"));
    assert_eq!(error.span, SourceSpan { offset: 2, length: 1 });
    assert_eq!(
        error.help.as_deref(),
        Some("Ensure that your expression follows the correct syntax.")
    );
    assert!(calc.validate("1", &number(0, 1)).is_ok());
}

#[test]
fn a_node_gives_back_what_it_was_made_of() {
    let node = SyntaxNode::new("binary_expression", 1, 6)
        .with_field("inner")
        .with_child(number(1, 2).with_field("left"))
        .with_child(number(5, 6).with_field("right"));
    assert_eq!(node.kind(), "binary_expression");
    assert_eq!((node.start_byte(), node.end_byte()), (1, 6));
    assert_eq!(node.child_count(), 2);
    assert_eq!(node.child(1).map(|c| c.start_byte()), Some(5));
    assert!(node.child(2).is_none());
    assert_eq!(node.child_by_field_name("right").map(|c| c.start_byte()), Some(5));
    assert!(node.child_by_field_name("operator").is_none());
}
