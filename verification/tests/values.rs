use adder_treesitter_cranelift::language::cache::{
    CompilationCache, CompiledFnPtr, CompiledFunction, RETENTION_NANOS,
};
use adder_treesitter_cranelift::language::error::{CalcErrorKind, CalculatorError};
use adder_treesitter_cranelift::language::expr::{BinaryOpKind, CalcValue, Expr};
use adder_treesitter_cranelift::language::jit::{compiled, new_module, started};
use adder_treesitter_cranelift::language::number::parse_integer;
use adder_treesitter_cranelift::language::parse::edit_descriptor;
use adder_treesitter_cranelift::language::text::{bytes_at, text_at, text_eq};
use adder_treesitter_cranelift::language::Calculator;

fn integer(n: i64) -> Box<Expr> {
    Box::new(Expr::Integer(n))
}

fn float(x: f64) -> Box<Expr> {
    Box::new(Expr::Float(x.to_bits()))
}

fn binary(left: Box<Expr>, op: BinaryOpKind, right: Box<Expr>) -> Box<Expr> {
    Box::new(Expr::BinaryOp { left, op, right })
}

#[test]
fn parse_integer_reads_signed_decimals() {
    assert_eq!(parse_integer(b"0"), Some(0));
    assert_eq!(parse_integer(b"-0"), Some(0));
    assert_eq!(parse_integer(b"+5"), Some(5));
    assert_eq!(parse_integer(b"007"), Some(7));
    assert_eq!(parse_integer(b"9223372036854775807"), Some(i64::MAX));
    assert_eq!(parse_integer(b"-9223372036854775808"), Some(i64::MIN));
    assert_eq!(parse_integer(b"9223372036854775808"), None);
    assert_eq!(parse_integer(b"-9223372036854775809"), None);
    assert_eq!(parse_integer(b"99999999999999999999999"), None);
    assert_eq!(parse_integer(b""), None);
    assert_eq!(parse_integer(b"-"), None);
    assert_eq!(parse_integer(b"+"), None);
    assert_eq!(parse_integer(b"1_0"), None);
    assert_eq!(parse_integer(b"12a"), None);
    assert_eq!(parse_integer(b"1.5"), None);
}

#[test]
fn parse_integer_agrees_with_the_standard_library() {
    for text in ["17", "-17", "+17", "", "-", "0x10", " 1", "18446744073709551616", "-00012"] {
        assert_eq!(parse_integer(text.as_bytes()), text.parse::<i64>().ok(), "{:?}", text);
    }
}

#[test]
fn text_at_cuts_on_character_boundaries_only() {
    assert_eq!(text_at("2 + é", 0, 1), Some("2"));
    assert_eq!(text_at("2 + é", 4, 6), Some("é"));
    assert_eq!(text_at("2 + é", 4, 5), None);
    assert_eq!(text_at("2 + é", 5, 6), None);
    assert_eq!(text_at("2 + é", 3, 3), Some(""));
    assert_eq!(text_at("2 + é", 5, 5), Some(""));
    assert_eq!(text_at("2 + é", 2, 1), None);
    assert_eq!(text_at("2 + é", 0, 7), None);
    assert_eq!(bytes_at("2 + é", 4, 5), &[0xc3u8][..]);
    assert_eq!(bytes_at("2 + é", 2, 9), b"");
}

#[test]
fn text_eq_compares_the_characters() {
    assert!(text_eq("source", "source"));
    assert!(!text_eq("source", "sourcf"));
    assert!(!text_eq("source", "sourc"));
    assert!(text_eq("", ""));
}

#[test]
fn the_type_is_float_exactly_with_a_float_literal_or_a_division() {
    let calc = Calculator::new().unwrap();
    let cases = [
        (integer(1), false),
        (float(1.0), true),
        (binary(integer(1), BinaryOpKind::Add, integer(2)), false),
        (binary(integer(1), BinaryOpKind::Divide, integer(2)), true),
        (binary(integer(1), BinaryOpKind::Multiply, float(2.0)), true),
        (
            binary(
                integer(1),
                BinaryOpKind::Subtract,
                Box::new(Expr::Parenthesized(binary(integer(4), BinaryOpKind::Divide, integer(2)))),
            ),
            true,
        ),
        (
            binary(
                Box::new(Expr::Parenthesized(binary(integer(4), BinaryOpKind::Add, integer(2)))),
                BinaryOpKind::Multiply,
                integer(3),
            ),
            false,
        ),
    ];
    for (expr, is_float) in cases {
        let (value, flag) = calc.determine_type(&expr).unwrap();
        assert_eq!(flag, is_float, "{:?}", expr);
        assert_eq!(matches!(value, CalcValue::Float(_)), is_float, "{:?}", expr);
    }
}

#[test]
fn the_type_of_an_operation_is_the_zero_of_its_domain() {
    let calc = Calculator::new().unwrap();
    let sum = binary(integer(2), BinaryOpKind::Add, integer(3));
    assert!(matches!(calc.determine_type(&sum), Ok((CalcValue::Integer(0), false))));
    let quotient = binary(integer(2), BinaryOpKind::Divide, integer(3));
    assert!(matches!(calc.determine_type(&quotient), Ok((CalcValue::Float(0), true))));
    let wrapped = Expr::Parenthesized(integer(9));
    assert!(matches!(calc.determine_type(&wrapped), Ok((CalcValue::Integer(9), false))));
}

#[test]
fn the_default_value_is_integer_zero() {
    assert!(matches!(CalcValue::default(), CalcValue::Integer(0)));
}

#[test]
fn the_structure_is_a_tag_and_the_content() {
    let mut out = vec![9u8];
    Expr::Integer(1).write_structure(&mut out);
    assert_eq!(out, vec![9, 0, 1, 0, 0, 0, 0, 0, 0, 0]);

    let mut out = Vec::new();
    Expr::Integer(-1).write_structure(&mut out);
    assert_eq!(out, vec![0, 255, 255, 255, 255, 255, 255, 255, 255]);

    let mut out = Vec::new();
    Expr::Float(1.0f64.to_bits()).write_structure(&mut out);
    assert_eq!(out, vec![1, 0, 0, 0, 0, 0, 0, 0xf0, 0x3f]);

    let mut out = Vec::new();
    Expr::Parenthesized(binary(integer(2), BinaryOpKind::Divide, integer(3)))
        .write_structure(&mut out);
    let mut expected = vec![3u8, 2, 0, 2, 0, 0, 0, 0, 0, 0, 0, 3, 0, 3];
    expected.extend([0u8; 7]);
    assert_eq!(out, expected);
    assert_eq!(BinaryOpKind::Add.tag_byte(), 0);
    assert_eq!(BinaryOpKind::Subtract.tag_byte(), 1);
    assert_eq!(BinaryOpKind::Multiply.tag_byte(), 2);
}

#[test]
fn equal_expressions_hash_alike() {
    let calc = Calculator::new().unwrap();
    let a = binary(integer(2), BinaryOpKind::Add, float(3.5));
    let b = a.clone();
    assert_eq!(a, b);
    assert_eq!(calc.hash_ast(&a), calc.hash_ast(&b));
    let swapped = binary(float(3.5), BinaryOpKind::Add, integer(2));
    assert_ne!(calc.hash_ast(&a), calc.hash_ast(&swapped));
    assert_ne!(calc.hash_ast(&Expr::Integer(1)), calc.hash_ast(&Expr::Float(1)));
}

#[test]
fn an_entry_is_fresh_for_less_than_the_window() {
    assert_eq!(RETENTION_NANOS, 300 * 1_000_000_000);
    let entry = CompiledFunction::new_int(64, 1_000);
    assert_eq!(entry.code_ptr, CompiledFnPtr::Integer(64));
    assert_eq!(entry.last_used, 1_000);
    assert!(entry.is_fresh(1_000));
    assert!(entry.is_fresh(1_000 + RETENTION_NANOS - 1));
    assert!(!entry.is_fresh(1_000 + RETENTION_NANOS));
    // A use that lies after the sweep's time counts as a use at that time.
    assert!(entry.is_fresh(0));
    let mut entry = CompiledFunction::new_float(64, 5);
    assert_eq!(entry.code_ptr, CompiledFnPtr::Float(64));
    entry.update(77);
    assert_eq!(entry, CompiledFunction { code_ptr: CompiledFnPtr::Float(64), last_used: 77 });
}

#[test]
fn a_stale_entry_leaves_with_the_sweep() {
    let mut cache = CompilationCache::new();
    assert_eq!(cache.len(), 0);
    cache.insert(1, CompiledFunction::new_int(16, 0));
    cache.insert(2, CompiledFunction::new_float(32, 10));
    assert_eq!(cache.len(), 2);

    cache.sweep(RETENTION_NANOS - 1);
    assert_eq!(cache.len(), 2);

    // The first entry has now aged the whole window, the second has not.
    cache.sweep(RETENTION_NANOS);
    assert_eq!(cache.len(), 1);
    assert!(cache.lookup(1, RETENTION_NANOS).is_none());
    assert_eq!(
        cache.lookup(2, RETENTION_NANOS),
        Some(CompiledFunction { code_ptr: CompiledFnPtr::Float(32), last_used: RETENTION_NANOS })
    );
}

#[test]
fn an_entry_that_is_hit_in_time_is_never_evicted() {
    let mut cache = CompilationCache::new();
    cache.insert(7, CompiledFunction::new_int(16, 0));
    let step = RETENTION_NANOS - 1;
    let mut now = 0;
    for _ in 0..5 {
        now += step;
        assert!(cache.lookup(7, now).is_some());
        cache.sweep(now + step);
        assert_eq!(cache.len(), 1);
    }
    // Without a further hit it leaves.
    cache.sweep(now + RETENTION_NANOS);
    assert_eq!(cache.len(), 0);
}

#[test]
fn an_insert_replaces_what_was_under_the_key() {
    let mut cache = CompilationCache::new();
    cache.insert(7, CompiledFunction::new_int(16, 0));
    cache.insert(7, CompiledFunction::new_float(48, 3));
    assert_eq!(cache.len(), 1);
    assert_eq!(
        cache.lookup(7, 4),
        Some(CompiledFunction { code_ptr: CompiledFnPtr::Float(48), last_used: 4 })
    );
    assert!(cache.last_tree().is_none());
}

#[test]
fn the_edit_descriptor_lies_in_row_zero() {
    let edit = edit_descriptor(1, 4, 9);
    assert_eq!((edit.start_byte, edit.old_end_byte, edit.new_end_byte), (1, 4, 9));
    assert_eq!((edit.start_position.row, edit.start_position.column), (0, 1));
    assert_eq!((edit.old_end_position.row, edit.old_end_position.column), (0, 4));
    assert_eq!((edit.new_end_position.row, edit.new_end_position.column), (0, 9));
}

#[test]
fn without_a_grammar_the_parser_yields_no_tree() {
    let mut calc = Calculator::new().unwrap();
    let error = calc.update_input("2 + 3", 0, 0, 5).unwrap_err();
    assert!(matches!(&error.kind, CalcErrorKind::ParseError(d) if d == "Failed to parse input"));
    assert_eq!((error.span.offset, error.span.length), (0, 5));
    assert_eq!(error.help.as_deref(), Some("Make sure your expression is syntactically valid"));
    assert_eq!(error.src.source, "2 + 3");
    assert!(calc.tree().is_none());
    // The edit reached the text all the same.
    assert_eq!(calc.input(), b"2 + 3");
}

#[test]
fn a_compile_gives_a_function_of_the_kind_of_the_expression() {
    let mut calc = Calculator::new().unwrap();
    let sum = Expr::BinaryOp { left: integer(2), op: BinaryOpKind::Add, right: integer(3) };
    let f = calc.compile_expr("2 + 3", sum, 5).unwrap();
    assert!(matches!(f.code_ptr, CompiledFnPtr::Integer(address) if address != 0));
    assert_eq!(f.last_used, 5);

    let mixed = Expr::BinaryOp {
        left: integer(2),
        op: BinaryOpKind::Multiply,
        right: Box::new(Expr::Parenthesized(binary(
            float(1.5),
            BinaryOpKind::Subtract,
            integer(1),
        ))),
    };
    let g = calc.compile_expr("2 * (1.5 - 1)", mixed, 6).unwrap();
    assert!(matches!(g.code_ptr, CompiledFnPtr::Float(address) if address != 0));
    assert_ne!(f.code_ptr, CompiledFnPtr::Integer(0));

    let quotient = Expr::BinaryOp { left: integer(2), op: BinaryOpKind::Divide, right: integer(3) };
    let h = calc.compile_expr("2 / 3", quotient, 7).unwrap();
    assert!(matches!(h.code_ptr, CompiledFnPtr::Float(_)));
    // Nothing entered the cache by compiling alone.
    assert_eq!(calc.cached(), 0);
}

#[test]
fn a_compilation_ends_as_the_code_generator_answered() {
    assert_eq!(
        compiled("1", false, Ok(4096), 9).unwrap(),
        CompiledFunction { code_ptr: CompiledFnPtr::Integer(4096), last_used: 9 }
    );
    assert_eq!(
        compiled("1.0", true, Ok(4096), 9).unwrap(),
        CompiledFunction { code_ptr: CompiledFnPtr::Float(4096), last_used: 9 }
    );
    let error = compiled("1", false, Err("no memory".to_string()), 9).unwrap_err();
    assert!(matches!(&error.kind, CalcErrorKind::JitError(d) if d == "no memory"));
    assert_eq!((error.span.offset, error.span.length), (0, 0));
    assert_eq!(error.help, None);
    assert_eq!(error.src.source, "1");
    assert_eq!(error.message(), "Calculator error: JIT error: no memory");
}

#[test]
fn each_kind_of_error_has_its_message() {
    let detail = || "x".to_string();
    assert_eq!(CalcErrorKind::ParseError(detail()).message(), "Invalid syntax");
    assert_eq!(CalcErrorKind::TypeMismatch(detail()).message(), "Type mismatch: x");
    assert_eq!(CalcErrorKind::InvalidOperator(detail()).message(), "Invalid operator: x");
    assert_eq!(CalcErrorKind::CompilationError(detail()).message(), "Compilation error: x");
    assert_eq!(CalcErrorKind::JitError(detail()).message(), "JIT error: x");
    assert_eq!(CalcErrorKind::NumberError(detail()).message(), "Invalid number: x");
    assert_eq!(CalcErrorKind::SystemError(detail()).message(), "System error: x");
    let error = CalculatorError::on_source("1 +", 2, 1, CalcErrorKind::SystemError(detail()), None);
    assert_eq!(error.message(), "Calculator error: System error: x");
    assert_eq!(error.src.name, "calculator");
    assert_eq!((error.span.offset, error.span.length), (2, 1));
}

#[test]
fn the_set_up_ends_as_the_code_generator_answered() {
    let error = started(Err("no such machine".to_string())).err().unwrap();
    assert!(matches!(&error.kind, CalcErrorKind::SystemError(d) if d == "no such machine"));
    assert_eq!(error.message(), "Calculator error: System error: no such machine");
    assert_eq!((error.span.offset, error.span.length), (0, 0));
    assert_eq!(error.help, None);
    assert_eq!(error.src.name, "calculator");
    assert_eq!(error.src.source, "");
    assert!(started(new_module().map_err(|e| e.message())).is_ok());
}

#[test]
fn an_evaluator_on_a_given_module_starts_empty() {
    let module = new_module().unwrap();
    let mut calc = Calculator::with_module(
        tree_sitter::Parser::new(),
        module,
        ahash::AHasher::default(),
    );
    assert_eq!(calc.input(), b"");
    assert_eq!(calc.cached(), 0);
    assert!(calc.tree().is_none());
    let sum = Expr::BinaryOp { left: integer(2), op: BinaryOpKind::Add, right: integer(3) };
    assert!(matches!(calc.compile_expr("2 + 3", sum, 1).unwrap().code_ptr, CompiledFnPtr::Integer(_)));
}

#[test]
fn without_a_parsed_tree_the_edited_tree_is_kept() {
    let mut cache = CompilationCache::new();
    cache.insert(3, CompiledFunction::new_int(16, 0));
    assert!(!cache.keep_tree(None, None));
    assert!(cache.last_tree().is_none());
    assert_eq!(cache.len(), 1);

    let mut parser = tree_sitter::Parser::new();
    let edit = adder_treesitter_cranelift::language::parse::edit_descriptor(0, 0, 1);
    assert!(!cache.reparse(&mut parser, b"1", &edit));
    assert!(cache.last_tree().is_none());
    assert_eq!(cache.len(), 1);
}

#[test]
fn the_built_function_is_declared_with_the_type_of_the_expression() {
    let calc = Calculator::new().unwrap();
    let sum = Expr::BinaryOp { left: integer(2), op: BinaryOpKind::Add, right: integer(3) };
    let (ctx, is_float) = calc.build(&sum);
    assert!(!is_float);
    assert!(ctx.func.signature.params.is_empty());
    assert_eq!(ctx.func.signature.returns.len(), 1);
    assert_eq!(ctx.func.signature.returns[0].value_type, cranelift::prelude::types::I64);
    assert_eq!(ctx.func.layout.blocks().count(), 1);

    let quotient = Expr::BinaryOp { left: integer(2), op: BinaryOpKind::Divide, right: integer(3) };
    let (ctx, is_float) = calc.build(&quotient);
    assert!(is_float);
    assert_eq!(ctx.func.signature.returns.len(), 1);
    assert_eq!(ctx.func.signature.returns[0].value_type, cranelift::prelude::types::F64);
    // Two constants, two conversions, the division and the return.
    let block = ctx.func.layout.entry_block().unwrap();
    assert_eq!(ctx.func.layout.block_insts(block).count(), 6);
}
