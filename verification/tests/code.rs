use adder_treesitter_cranelift::language::{BinaryOpKind, Calculator, Expr};

fn integer(n: i64) -> Box<Expr> {
    Box::new(Expr::Integer(n))
}

fn float(x: f64) -> Box<Expr> {
    Box::new(Expr::Float(x.to_bits()))
}

fn binary(left: Box<Expr>, op: BinaryOpKind, right: Box<Expr>) -> Box<Expr> {
    Box::new(Expr::BinaryOp { left, op, right })
}

// The instructions of the code, one to a line, without what the printer
// notes behind them.
fn instructions(code: &str) -> Vec<String> {
    code.lines()
        .map(|line| line.split(';').next().unwrap_or("").trim().to_string())
        .filter(|line| !line.is_empty())
        .collect()
}

fn code_of(expr: &Expr) -> Vec<String> {
    let calc = Calculator::new().unwrap();
    instructions(&calc.intermediate_code(expr))
}

#[test]
fn a_literal_is_a_constant() {
    assert_eq!(
        code_of(&Expr::Integer(-7)),
        ["function u0:0() -> i64 system_v {", "block0:", "v0 = iconst.i64 -7", "return v0", "}"]
    );
    let code = code_of(&Expr::Float(3.5f64.to_bits()));
    assert_eq!(code[0], "function u0:0() -> f64 system_v {");
    assert_eq!(&code[2..], ["v0 = f64const 0x1.c000000000000p1", "return v0", "}"]);
    assert_eq!(code_of(&Expr::Parenthesized(integer(1)))[2..4], ["v0 = iconst.i64 1", "return v0"]);
}

#[test]
fn an_integer_operation_takes_its_operands_in_order() {
    for (op, name) in [
        (BinaryOpKind::Add, "iadd"),
        (BinaryOpKind::Subtract, "isub"),
        (BinaryOpKind::Multiply, "imul"),
    ] {
        let code = code_of(&binary(integer(2), op, integer(3)));
        assert_eq!(code[0], "function u0:0() -> i64 system_v {");
        assert_eq!(
            &code[2..],
            [
                "v0 = iconst.i64 2".to_string(),
                "v1 = iconst.i64 3".to_string(),
                format!("v2 = {} v0, v1", name),
                "return v2".to_string(),
                "}".to_string()
            ]
        );
    }
}

#[test]
fn a_float_operation_takes_its_operands_in_order() {
    for (op, name) in [
        (BinaryOpKind::Add, "fadd"),
        (BinaryOpKind::Subtract, "fsub"),
        (BinaryOpKind::Multiply, "fmul"),
        (BinaryOpKind::Divide, "fdiv"),
    ] {
        let code = code_of(&binary(float(1.0), op, float(2.0)));
        assert_eq!(code[0], "function u0:0() -> f64 system_v {");
        assert_eq!(
            &code[2..],
            [
                "v0 = f64const 0x1.0000000000000p0".to_string(),
                "v1 = f64const 0x1.0000000000000p1".to_string(),
                format!("v2 = {} v0, v1", name),
                "return v2".to_string(),
                "}".to_string()
            ]
        );
    }
}

#[test]
fn an_integer_operand_is_converted_before_a_float_operation() {
    let code = code_of(&binary(integer(2), BinaryOpKind::Add, float(3.5)));
    assert_eq!(
        &code[2..],
        [
            "v0 = iconst.i64 2",
            "v1 = f64const 0x1.c000000000000p1",
            "v2 = fcvt_from_sint.f64 v0",
            "v3 = fadd v2, v1",
            "return v3",
            "}"
        ]
    );
    let code = code_of(&binary(float(3.5), BinaryOpKind::Subtract, integer(2)));
    assert_eq!(
        &code[2..],
        [
            "v0 = f64const 0x1.c000000000000p1",
            "v1 = iconst.i64 2",
            "v2 = fcvt_from_sint.f64 v1",
            "v3 = fsub v0, v2",
            "return v3",
            "}"
        ]
    );
}

#[test]
fn a_division_converts_both_integer_operands() {
    let code = code_of(&binary(integer(2), BinaryOpKind::Divide, integer(3)));
    assert_eq!(code[0], "function u0:0() -> f64 system_v {");
    assert_eq!(
        &code[2..],
        [
            "v0 = iconst.i64 2",
            "v1 = iconst.i64 3",
            "v2 = fcvt_from_sint.f64 v0",
            "v3 = fcvt_from_sint.f64 v1",
            "v4 = fdiv v2, v3",
            "return v4",
            "}"
        ]
    );
}

#[test]
fn operands_are_lowered_left_before_right() {
    let expr = binary(
        binary(integer(1), BinaryOpKind::Add, integer(2)),
        BinaryOpKind::Multiply,
        Box::new(Expr::Parenthesized(binary(float(0.5), BinaryOpKind::Subtract, integer(4)))),
    );
    assert_eq!(
        &code_of(&expr)[2..],
        [
            "v0 = iconst.i64 1",
            "v1 = iconst.i64 2",
            "v2 = iadd v0, v1",
            "v3 = f64const 0x1.0000000000000p-1",
            "v4 = iconst.i64 4",
            "v5 = fcvt_from_sint.f64 v4",
            "v6 = fsub v3, v5",
            "v7 = fcvt_from_sint.f64 v2",
            "v8 = fmul v7, v6",
            "return v8",
            "}"
        ]
    );
}
