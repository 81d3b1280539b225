use cranelift::codegen::ir::immediates::Ieee64;
use cranelift::codegen::Context;
use cranelift::prelude::settings::{self, Configurable, Flags, SetError};
use cranelift::prelude::{
    types, AbiParam, FunctionBuilder, FunctionBuilderContext, InstBuilder, Value,
};
use cranelift_jit::{JITBuilder, JITModule};
use cranelift_module::{default_libcall_names, Linkage, Module, ModuleError};
use vstd::prelude::*;

use crate::language::cache::{CompiledFnPtr, CompiledFunction};
use crate::language::code::{
    conversion_code, defines, fresh_names, lemma_binary_code, lemma_fresh_concat,
    lemma_lowered_defines, lemma_operation_fresh, lemma_results_concat, lemma_results_one,
    function_of, lowered_onto, operation_code, results_of, Arith, Inst,
};
use crate::language::semantics::{
    lemma_function_returns_value, lemma_lowering_runs, result_of, run, FloatOps,
};
use crate::language::error::{CalcErrorKind, CalculatorError, ErrorView, KindView, SourceSpan};
use crate::language::expr::{BinaryOpKind, CalcValue, Expr};
use crate::language::Calculator;

verus! {

/// The instructions of the function under construction, where it has one
/// block, the builder stands at that block, and the block is sealed and takes
/// more instructions; none otherwise.
pub uninterp spec fn entry_code(builder: FunctionBuilder) -> Option<Seq<Inst>>;

/// Whether the function under construction has one block, sealed and closed
/// by a return.
pub uninterp spec fn function_closed(builder: FunctionBuilder) -> bool;

/// The code of the function under construction as the builder leaves it
/// when it is done, where the function then has one block, sealed and
/// closed by a return; none otherwise. It speaks of the end of the
/// builder's course, so appending an instruction does not change it, and
/// the return that closes the block settles it.
pub uninterp spec fn final_code(builder: FunctionBuilder) -> Option<Seq<Inst>>;

/// The code of the function of a compilation context, where the function
/// has one block, sealed and closed by a return; none otherwise.
pub uninterp spec fn context_code(ctx: Context) -> Option<Seq<Inst>>;

/// Whether the function of a compilation context is declared to return one
/// 64-bit float.
pub uninterp spec fn context_returns_float(ctx: Context) -> bool;

/// Whether a scratch context holds nothing of a function under construction.
pub uninterp spec fn scratch_idle(scratch: FunctionBuilderContext) -> bool;

/// Whether the function of a compilation context has no block yet.
pub uninterp spec fn context_blank(ctx: Context) -> bool;

#[verifier::external_type_specification]
#[verifier::external_body]
pub struct ExContext(Context);

#[verifier::external_type_specification]
#[verifier::external_body]
pub struct ExFunctionBuilderContext(FunctionBuilderContext);

#[verifier::external_type_specification]
#[verifier::external_body]
pub struct ExFunctionBuilder<'a>(FunctionBuilder<'a>);

#[verifier::external_type_specification]
#[verifier::external_body]
pub struct ExJITModule(JITModule);

#[verifier::external_type_specification]
#[verifier::external_body]
pub struct ExSettingsBuilder(settings::Builder);

#[verifier::external_type_specification]
#[verifier::external_body]
pub struct ExSetError(SetError);

#[verifier::external_type_specification]
#[verifier::external_body]
pub struct ExModuleError(ModuleError);

/// The code generator's settings, each at its default.
///
/// Trusted: `settings::builder` returns a builder of settings.
#[verifier::external_body]
fn default_flags() -> settings::Builder {
    settings::builder()
}

/// Sets the setting `name` to `value`.
///
/// Trusted: `Configurable::set` sets one setting by name, or fails.
#[verifier::external_body]
fn set_flag(flags: &mut settings::Builder, name: &str, value: &str) -> Result<(), SetError> {
    flags.set(name, value)
}

/// Trusted: the text of a failure to set a setting, as its `Display` gives
/// it.
#[verifier::external_body]
fn set_error_text(error: &SetError) -> String {
    error.to_string()
}

/// Trusted: the text of a failure of the module, as its `Display` gives it.
#[verifier::external_body]
fn module_error_text(error: &ModuleError) -> String {
    error.to_string()
}

/// A module of executable code for the machine that this runs on.
///
/// Trusted: `cranelift_native::builder` and the `finish` of what it returns
/// with the given settings yield the host's instruction set or fail, each
/// with an error of its own type, whose text is returned;
/// `JITBuilder::with_isa` with `default_libcall_names` and `JITModule::new`
/// make an empty module for it.
#[verifier::external_body]
fn native_module(flags: settings::Builder) -> Result<JITModule, String> {
    let isa_builder = cranelift_native::builder().map_err(|e| e.to_string())?;
    let isa = isa_builder.finish(Flags::new(flags)).map_err(|e| e.to_string())?;
    Ok(JITModule::new(JITBuilder::with_isa(isa, default_libcall_names())))
}

/// A name that starts with `prefix` and goes on with a random number.
///
/// Trusted: `fastrand::u64` returns a number, which is written in decimal
/// behind the prefix.
#[verifier::external_body]
fn fresh_symbol(prefix: &str) -> (name: String)
    ensures
        name@.len() > prefix@.len(),
        name@.subrange(0, prefix@.len() as int) == prefix@,
{
    format!("{}{}", prefix, fastrand::u64(..))
}

/// Makes the function of `ctx` callable under `name` and returns its
/// address.
///
/// Trusted: on a context whose function has one block, sealed and closed by
/// a return, `declare_function` with `Linkage::Export` and the signature of
/// the context, `define_function` and `finalize_definitions` each succeed or
/// fail; after they succeeded, `get_finalized_function` returns the address
/// of the function's code.
#[verifier::external_body]
fn install(module: &mut JITModule, name: &str, ctx: &mut Context) -> Result<usize, ModuleError>
    requires
        context_code(*old(ctx)) is Some,
{
    let id = module.declare_function(name, Linkage::Export, &ctx.func.signature)?;
    module.define_function(id, ctx)?;
    module.finalize_definitions()?;
    Ok(module.get_finalized_function(id) as usize)
}

/// A compilation context for a function without parameters that returns one
/// 64-bit integer.
///
/// Trusted: `Module::make_context` returns a context whose function has no
/// block and whose signature declares no return; `AbiParam::new(types::I64)`
/// is pushed to the returns of the signature.
#[verifier::external_body]
fn integer_context(module: &JITModule) -> (ctx: Context)
    ensures
        context_blank(ctx),
        !context_returns_float(ctx),
{
    let mut ctx = module.make_context();
    ctx.func.signature.returns.push(AbiParam::new(types::I64));
    ctx
}

/// A compilation context for a function without parameters that returns one
/// 64-bit float.
///
/// Trusted: `Module::make_context` returns a context whose function has no
/// block and whose signature declares no return; `AbiParam::new(types::F64)`
/// is pushed to the returns of the signature.
#[verifier::external_body]
fn float_context(module: &JITModule) -> (ctx: Context)
    ensures
        context_blank(ctx),
        context_returns_float(ctx),
{
    let mut ctx = module.make_context();
    ctx.func.signature.returns.push(AbiParam::new(types::F64));
    ctx
}

/// A scratch context for building functions.
///
/// Trusted: `FunctionBuilderContext::new` returns an empty context.
#[verifier::external_body]
fn new_scratch() -> (scratch: FunctionBuilderContext)
    ensures
        scratch_idle(scratch),
{
    FunctionBuilderContext::new()
}

/// A builder on the function of `ctx`, standing at a new, empty entry block.
///
/// Trusted: `FunctionBuilder::new` on a function without blocks and an empty
/// scratch context, then `create_block`,
/// `append_block_params_for_function_params`, `switch_to_block` and
/// `seal_block` on the new block, leave a function of one sealed block,
/// without instructions, at which the builder stands. The builder writes
/// into the function of `ctx`, which is, when the builder is done, as the
/// builder leaves it; the builder does not touch the signature.
#[verifier::external_body]
fn begin_function<'a>(ctx: &'a mut Context, scratch: &'a mut FunctionBuilderContext) -> (builder:
    FunctionBuilder<'a>)
    requires
        context_blank(*old(ctx)),
        scratch_idle(*old(scratch)),
    ensures
        entry_code(builder) == Some(Seq::<Inst>::empty()),
        context_code(*final(ctx)) == final_code(builder),
        context_returns_float(*final(ctx)) == context_returns_float(*old(ctx)),
{
    let mut builder = FunctionBuilder::new(&mut ctx.func, scratch);
    let entry = builder.create_block();
    builder.append_block_params_for_function_params(entry);
    builder.switch_to_block(entry);
    builder.seal_block(entry);
    builder
}

/// Trusted: `iconst` appends to the current block an integer constant of
/// type `I64` and returns the value that it defines, which is a new one.
#[verifier::external_body]
fn emit_iconst(builder: &mut FunctionBuilder<'_>, value: i64) -> (result: u32)
    requires
        entry_code(*old(builder)) is Some,
    ensures
        entry_code(*final(builder)) == Some(
            entry_code(*old(builder))->0.push(Inst::Iconst { value, result }),
        ),
        !defines(entry_code(*old(builder))->0, result),
        final_code(*final(builder)) == final_code(*old(builder)),
{
    builder.ins().iconst(types::I64, value).as_u32()
}

/// Trusted: `f64const` appends to the current block a float constant with
/// the given bit pattern and returns the value that it defines, which is a
/// new one.
#[verifier::external_body]
fn emit_f64const(builder: &mut FunctionBuilder<'_>, bits: u64) -> (result: u32)
    requires
        entry_code(*old(builder)) is Some,
    ensures
        entry_code(*final(builder)) == Some(
            entry_code(*old(builder))->0.push(Inst::F64const { bits, result }),
        ),
        !defines(entry_code(*old(builder))->0, result),
        final_code(*final(builder)) == final_code(*old(builder)),
{
    builder.ins().f64const(Ieee64::with_bits(bits)).as_u32()
}

/// Trusted: `fcvt_from_sint` appends to the current block the conversion of
/// a value of the block to a 64-bit float and returns the value that it
/// defines, which is a new one.
#[verifier::external_body]
fn emit_fcvt_from_sint(builder: &mut FunctionBuilder<'_>, arg: u32) -> (result: u32)
    requires
        entry_code(*old(builder)) matches Some(code) && defines(code, arg),
    ensures
        entry_code(*final(builder)) == Some(
            entry_code(*old(builder))->0.push(Inst::FcvtFromSint { arg, result }),
        ),
        !defines(entry_code(*old(builder))->0, result),
        final_code(*final(builder)) == final_code(*old(builder)),
{
    builder.ins().fcvt_from_sint(types::F64, Value::from_u32(arg)).as_u32()
}

/// Trusted: `iadd` appends to the current block the addition of two values of the
/// block and returns the value that it defines, which is a new one.
#[verifier::external_body]
fn emit_iadd(builder: &mut FunctionBuilder<'_>, left: u32, right: u32) -> (result: u32)
    requires
        entry_code(*old(builder)) matches Some(code) && defines(code, left) && defines(
            code,
            right,
        ),
    ensures
        entry_code(*final(builder)) == Some(
            entry_code(*old(builder))->0.push(
                Inst::Binary { op: Arith::Iadd, left, right, result },
            ),
        ),
        !defines(entry_code(*old(builder))->0, result),
        final_code(*final(builder)) == final_code(*old(builder)),
{
    builder.ins().iadd(Value::from_u32(left), Value::from_u32(right)).as_u32()
}

/// Trusted: `isub` appends to the current block the subtraction of two values of the
/// block and returns the value that it defines, which is a new one.
#[verifier::external_body]
fn emit_isub(builder: &mut FunctionBuilder<'_>, left: u32, right: u32) -> (result: u32)
    requires
        entry_code(*old(builder)) matches Some(code) && defines(code, left) && defines(
            code,
            right,
        ),
    ensures
        entry_code(*final(builder)) == Some(
            entry_code(*old(builder))->0.push(
                Inst::Binary { op: Arith::Isub, left, right, result },
            ),
        ),
        !defines(entry_code(*old(builder))->0, result),
        final_code(*final(builder)) == final_code(*old(builder)),
{
    builder.ins().isub(Value::from_u32(left), Value::from_u32(right)).as_u32()
}

/// Trusted: `imul` appends to the current block the multiplication of two values of the
/// block and returns the value that it defines, which is a new one.
#[verifier::external_body]
fn emit_imul(builder: &mut FunctionBuilder<'_>, left: u32, right: u32) -> (result: u32)
    requires
        entry_code(*old(builder)) matches Some(code) && defines(code, left) && defines(
            code,
            right,
        ),
    ensures
        entry_code(*final(builder)) == Some(
            entry_code(*old(builder))->0.push(
                Inst::Binary { op: Arith::Imul, left, right, result },
            ),
        ),
        !defines(entry_code(*old(builder))->0, result),
        final_code(*final(builder)) == final_code(*old(builder)),
{
    builder.ins().imul(Value::from_u32(left), Value::from_u32(right)).as_u32()
}

/// Trusted: `fadd` appends to the current block the float addition of two values of the
/// block and returns the value that it defines, which is a new one.
#[verifier::external_body]
fn emit_fadd(builder: &mut FunctionBuilder<'_>, left: u32, right: u32) -> (result: u32)
    requires
        entry_code(*old(builder)) matches Some(code) && defines(code, left) && defines(
            code,
            right,
        ),
    ensures
        entry_code(*final(builder)) == Some(
            entry_code(*old(builder))->0.push(
                Inst::Binary { op: Arith::Fadd, left, right, result },
            ),
        ),
        !defines(entry_code(*old(builder))->0, result),
        final_code(*final(builder)) == final_code(*old(builder)),
{
    builder.ins().fadd(Value::from_u32(left), Value::from_u32(right)).as_u32()
}

/// Trusted: `fsub` appends to the current block the float subtraction of two values of the
/// block and returns the value that it defines, which is a new one.
#[verifier::external_body]
fn emit_fsub(builder: &mut FunctionBuilder<'_>, left: u32, right: u32) -> (result: u32)
    requires
        entry_code(*old(builder)) matches Some(code) && defines(code, left) && defines(
            code,
            right,
        ),
    ensures
        entry_code(*final(builder)) == Some(
            entry_code(*old(builder))->0.push(
                Inst::Binary { op: Arith::Fsub, left, right, result },
            ),
        ),
        !defines(entry_code(*old(builder))->0, result),
        final_code(*final(builder)) == final_code(*old(builder)),
{
    builder.ins().fsub(Value::from_u32(left), Value::from_u32(right)).as_u32()
}

/// Trusted: `fmul` appends to the current block the float multiplication of two values of the
/// block and returns the value that it defines, which is a new one.
#[verifier::external_body]
fn emit_fmul(builder: &mut FunctionBuilder<'_>, left: u32, right: u32) -> (result: u32)
    requires
        entry_code(*old(builder)) matches Some(code) && defines(code, left) && defines(
            code,
            right,
        ),
    ensures
        entry_code(*final(builder)) == Some(
            entry_code(*old(builder))->0.push(
                Inst::Binary { op: Arith::Fmul, left, right, result },
            ),
        ),
        !defines(entry_code(*old(builder))->0, result),
        final_code(*final(builder)) == final_code(*old(builder)),
{
    builder.ins().fmul(Value::from_u32(left), Value::from_u32(right)).as_u32()
}

/// Trusted: `fdiv` appends to the current block the float division of two values of the
/// block and returns the value that it defines, which is a new one.
#[verifier::external_body]
fn emit_fdiv(builder: &mut FunctionBuilder<'_>, left: u32, right: u32) -> (result: u32)
    requires
        entry_code(*old(builder)) matches Some(code) && defines(code, left) && defines(
            code,
            right,
        ),
    ensures
        entry_code(*final(builder)) == Some(
            entry_code(*old(builder))->0.push(
                Inst::Binary { op: Arith::Fdiv, left, right, result },
            ),
        ),
        !defines(entry_code(*old(builder))->0, result),
        final_code(*final(builder)) == final_code(*old(builder)),
{
    builder.ins().fdiv(Value::from_u32(left), Value::from_u32(right)).as_u32()
}

/// Trusted: `return_` with one value of the block appends the return and
/// closes the block: the function is then as the builder leaves it.
#[verifier::external_body]
fn emit_return(builder: &mut FunctionBuilder<'_>, arg: u32)
    requires
        entry_code(*old(builder)) matches Some(code) && defines(code, arg),
    ensures
        function_closed(*final(builder)),
        final_code(*final(builder)) == final_code(*old(builder)),
        final_code(*final(builder)) == Some(
            entry_code(*old(builder))->0.push(Inst::Return { arg }),
        ),
{
    builder.ins().return_(&[Value::from_u32(arg)]);
}

/// Trusted: `finalize` accepts a function of one block, sealed and closed.
#[verifier::external_body]
fn finish_function(builder: FunctionBuilder<'_>)
    requires
        function_closed(builder),
{
    builder.finalize()
}

/// Appends one operation on two values of the block. Returns the arguments
/// of the arithmetic instruction and the value that it defines.
fn emit_operation(
    builder: &mut FunctionBuilder<'_>,
    op: BinaryOpKind,
    left_value: u32,
    left_float: bool,
    right_value: u32,
    right_float: bool,
) -> (r: (u32, u32, u32))
    requires
        entry_code(*old(builder)) matches Some(code) && defines(code, left_value) && defines(
            code,
            right_value,
        ),
    ensures
        entry_code(*final(builder)) == Some(
            entry_code(*old(builder))->0 + operation_code(
                op,
                left_float,
                right_float,
                left_value,
                right_value,
                r.0,
                r.1,
                r.2,
            ),
        ),
        left_float || !(right_float || op == BinaryOpKind::Divide) ==> r.0 == left_value,
        right_float || !(left_float || op == BinaryOpKind::Divide) ==> r.1 == right_value,
        final_code(*final(builder)) == final_code(*old(builder)),
        fresh_names(
            entry_code(*old(builder))->0,
            results_of(
                operation_code(
                    op,
                    left_float,
                    right_float,
                    left_value,
                    right_value,
                    r.0,
                    r.1,
                    r.2,
                ),
            ),
        ),
{
    let ghost before = entry_code(*builder)->0;
    let divides = match op {
        BinaryOpKind::Divide => true,
        _ => false,
    };
    let needs_float = divides || left_float || right_float;
    let left_arg = if needs_float && !left_float {
        emit_fcvt_from_sint(builder, left_value)
    } else {
        left_value
    };
    let ghost with_left = entry_code(*builder)->0;
    assert(defines(with_left, right_value) && defines(with_left, left_arg)) by {
        let i = choose|i: int| 0 <= i < before.len() && #[trigger] before[i].result() == Some(right_value);
        assert(with_left[i].result() == Some(right_value));
        if needs_float && !left_float {
            assert(with_left[before.len() as int].result() == Some(left_arg));
        } else {
            let j = choose|j: int| 0 <= j < before.len() && #[trigger] before[j].result() == Some(left_value);
            assert(with_left[j].result() == Some(left_arg));
        }
    }
    let right_arg = if needs_float && !right_float {
        emit_fcvt_from_sint(builder, right_value)
    } else {
        right_value
    };
    let ghost with_right = entry_code(*builder)->0;
    assert(defines(with_right, left_arg) && defines(with_right, right_arg)) by {
        let i = choose|i: int| 0 <= i < with_left.len() && #[trigger] with_left[i].result() == Some(left_arg);
        assert(with_right[i].result() == Some(left_arg));
        if needs_float && !right_float {
            assert(with_right[with_left.len() as int].result() == Some(right_arg));
        } else {
            let j = choose|j: int| 0 <= j < with_left.len() && #[trigger] with_left[j].result() == Some(right_value);
            assert(with_right[j].result() == Some(right_arg));
        }
    }
    let result = match (op, needs_float) {
        (BinaryOpKind::Add, false) => emit_iadd(builder, left_arg, right_arg),
        (BinaryOpKind::Subtract, false) => emit_isub(builder, left_arg, right_arg),
        (BinaryOpKind::Multiply, false) => emit_imul(builder, left_arg, right_arg),
        (BinaryOpKind::Add, true) => emit_fadd(builder, left_arg, right_arg),
        (BinaryOpKind::Subtract, true) => emit_fsub(builder, left_arg, right_arg),
        (BinaryOpKind::Multiply, true) => emit_fmul(builder, left_arg, right_arg),
        (BinaryOpKind::Divide, _) => emit_fdiv(builder, left_arg, right_arg),
    };
    assert(entry_code(*builder)->0 =~= before + operation_code(
        op,
        left_float,
        right_float,
        left_value,
        right_value,
        left_arg,
        right_arg,
        result,
    ));
    proof {
        let left_conv = conversion_code(needs_float && !left_float, left_value, left_arg);
        let right_conv = conversion_code(needs_float && !right_float, right_value, right_arg);
        assert(with_left =~= before + left_conv);
        assert(with_right =~= before + left_conv + right_conv);
        lemma_operation_fresh(
            before,
            op,
            left_float,
            right_float,
            left_value,
            right_value,
            left_arg,
            right_arg,
            result,
        );
    }
    (left_arg, right_arg, result)
}

/// Lowers `expr` into the block at which the builder stands: the code of
/// the expression is appended under new names, and the value that it
/// defines is returned with the expression's type. Whatever the machine's
/// float arithmetic is, the code computes the value of the expression.
#[verifier::rlimit(40)]
fn compile_node(builder: &mut FunctionBuilder<'_>, expr: &Expr) -> (r: (CalcValue, u32))
    requires
        entry_code(*old(builder)) is Some,
    ensures
        r.0 == expr.resolved(),
        entry_code(*final(builder)) matches Some(code) && lowered_onto(
            entry_code(*old(builder))->0,
            code,
            *expr,
            r.1,
        ),
        forall|ops: FloatOps| #[trigger]
            run(Map::empty(), entry_code(*final(builder))->0, ops)[r.1] == expr.value(ops),
        final_code(*final(builder)) == final_code(*old(builder)),
    decreases expr,
{
    let ghost before = entry_code(*builder)->0;
    let r = match expr {
        Expr::Integer(n) => {
            let v = emit_iconst(builder, *n);
            proof {
                let inst = Inst::Iconst { value: *n, result: v };
                let code = entry_code(*builder)->0;
                assert(code.skip(before.len() as int) =~= seq![inst]);
                assert(code.take(before.len() as int) =~= before);
                lemma_results_one(inst);
                assert(fresh_names(before, seq![v]));
            }
            (CalcValue::Integer(*n), v)
        },
        Expr::Float(bits) => {
            let v = emit_f64const(builder, *bits);
            proof {
                let inst = Inst::F64const { bits: *bits, result: v };
                let code = entry_code(*builder)->0;
                assert(code.skip(before.len() as int) =~= seq![inst]);
                assert(code.take(before.len() as int) =~= before);
                lemma_results_one(inst);
                assert(fresh_names(before, seq![v]));
            }
            (CalcValue::Float(*bits), v)
        },
        Expr::BinaryOp { left, op, right } => {
            let (left_val, left_ir) = compile_node(builder, left);
            let ghost mid = entry_code(*builder)->0;
            let (right_val, right_ir) = compile_node(builder, right);
            let ghost both = entry_code(*builder)->0;
            let ghost left_code = mid.skip(before.len() as int);
            let ghost right_code = both.skip(mid.len() as int);
            proof {
                left.lemma_type_promotion();
                right.lemma_type_promotion();
                lemma_lowered_defines(before, mid, **left, left_ir, right_code);
                assert(mid + right_code =~= both);
                lemma_lowered_defines(mid, both, **right, right_ir, Seq::empty());
                assert(both + Seq::<Inst>::empty() =~= both);
            }
            let left_float = match left_val {
                CalcValue::Float(_) => true,
                CalcValue::Integer(_) => false,
            };
            let right_float = match right_val {
                CalcValue::Float(_) => true,
                CalcValue::Integer(_) => false,
            };
            let (left_arg, right_arg, result) = emit_operation(
                builder,
                *op,
                left_ir,
                left_float,
                right_ir,
                right_float,
            );
            let needs_float = left_float || right_float || match op {
                BinaryOpKind::Divide => true,
                _ => false,
            };
            proof {
                let code = entry_code(*builder)->0;
                let added = code.skip(before.len() as int);
                let last = code.skip(both.len() as int);
                assert(mid =~= before + left_code);
                assert(code =~= before + left_code + right_code + last);
                assert(added =~= left_code + right_code + last);
                assert(code.take(before.len() as int) =~= before);
                assert(last =~= operation_code(
                    *op,
                    left_float,
                    right_float,
                    left_ir,
                    right_ir,
                    left_arg,
                    right_arg,
                    result,
                ));
                lemma_binary_code(
                    **left,
                    *op,
                    **right,
                    left_code,
                    right_code,
                    last,
                    left_arg,
                    right_arg,
                    result,
                );
                assert(before + left_code =~= mid);
                lemma_fresh_concat(before, left_code, results_of(right_code));
                lemma_results_concat(left_code, right_code);
                assert(before + (left_code + right_code) =~= both);
                lemma_fresh_concat(before, left_code + right_code, results_of(last));
                lemma_results_concat(left_code + right_code, last);
            }
            (
                if needs_float {
                    CalcValue::Float(0)
                } else {
                    CalcValue::Integer(0)
                },
                result,
            )
        },
        Expr::Parenthesized(inner) => compile_node(builder, inner),
    };
    proof {
        let code = entry_code(*builder)->0;
        assert forall|ops: FloatOps| #[trigger]
            run(Map::empty(), code, ops)[r.1] == expr.value(ops) by {
            lemma_lowering_runs(before, code, *expr, r.1, ops);
        }
    }
    r
}

/// The diagnostic of a failure to set up the code generator: a failure of
/// the system, which has no source text, covers nothing and carries no
/// hint.
pub open spec fn boot_failure(detail: Seq<char>) -> ErrorView {
    ErrorView {
        name: "calculator"@,
        source: Seq::empty(),
        span: SourceSpan { offset: 0, length: 0 },
        kind: KindView::SystemError(detail),
        help: None,
    }
}

/// A module of executable code for the machine that this runs on, for code
/// that is not position-independent and calls no colocated library
/// functions.
pub fn new_module() -> (r: Result<JITModule, CalculatorError>)
    ensures
        r matches Err(e) ==> exists|detail: Seq<char>| e@ == boot_failure(detail),
{
    let mut flags = default_flags();
    if let Err(e) = set_flag(&mut flags, "use_colocated_libcalls", "false") {
        return started(Err(set_error_text(&e)));
    }
    if let Err(e) = set_flag(&mut flags, "is_pic", "false") {
        return started(Err(set_error_text(&e)));
    }
    started(native_module(flags))
}

/// The diagnostic of a failure to set up the code generator, of which
/// `detail` is the text.
fn boot_error(detail: String) -> (e: CalculatorError)
    ensures
        e@ == boot_failure(detail@),
{
    let e = CalculatorError::on_source("", 0, 0, CalcErrorKind::SystemError(detail), None);
    proof {
        reveal_strlit("");
        assert(""@ =~= Seq::<char>::empty());
    }
    e
}

/// The diagnostic of a failure of the code generator: it covers nothing of
/// the source and carries no hint.
pub open spec fn jit_failure(source: Seq<char>, detail: Seq<char>) -> ErrorView {
    ErrorView {
        name: "calculator"@,
        source,
        span: SourceSpan { offset: 0, length: 0 },
        kind: KindView::JitError(detail),
        help: None,
    }
}

/// What a compilation returns for what the code generator answered: the
/// function at the address that it gave, of the kind of the expression and
/// used at `now`, or the diagnostic of its failure.
pub fn compiled(input: &str, float: bool, installed: Result<usize, String>, now: u64) -> (r: Result<
    CompiledFunction,
    CalculatorError,
>)
    ensures
        match (installed, r) {
            (Ok(address), Ok(f)) => f == if float {
                CompiledFunction { code_ptr: CompiledFnPtr::Float(address), last_used: now }
            } else {
                CompiledFunction { code_ptr: CompiledFnPtr::Integer(address), last_used: now }
            },
            (Err(detail), Err(e)) => e@ == jit_failure(input@, detail@),
            _ => false,
        },
{
    match installed {
        Ok(address) => Ok(
            if float {
                CompiledFunction::new_float(address, now)
            } else {
                CompiledFunction::new_int(address, now)
            },
        ),
        Err(detail) => Err(
            CalculatorError::on_source(input, 0, 0, CalcErrorKind::JitError(detail), None),
        ),
    }
}

/// Trusted: the `Display` of a function writes its code in the code
/// generator's text format.
#[verifier::external_body]
fn function_text(ctx: &Context) -> String {
    ctx.func.display().to_string()
}

impl Calculator {
    /// Builds the function that `expr` compiles to, in a new compilation
    /// context: a function without parameters whose one block holds the
    /// lowering of `expr` under new names and then the return of its value.
    /// The function is declared to return a float exactly when `expr` is of
    /// float type, and whatever the machine's float arithmetic is, it
    /// returns the value of `expr`. Returns the context, and whether the
    /// function returns a float.
    pub fn build(&self, expr: &Expr) -> (r: (Context, bool))
        ensures
            r.1 == expr.is_float(),
            context_returns_float(r.0) == expr.is_float(),
            context_code(r.0) matches Some(code) && function_of(*expr, code),
            forall|ops: FloatOps| #[trigger]
                result_of(context_code(r.0)->0, ops) == expr.value(ops),
    {
        let is_float = match self.determine_type(expr) {
            Ok((_, is_float)) => is_float,
            Err(_) => false,
        };
        let mut ctx = if is_float {
            float_context(&self.jit_module)
        } else {
            integer_context(&self.jit_module)
        };
        let mut scratch = new_scratch();
        let mut builder = begin_function(&mut ctx, &mut scratch);
        let (_, result) = compile_node(&mut builder, expr);
        let ghost body = entry_code(builder)->0;
        proof {
            lemma_lowered_defines(Seq::empty(), body, *expr, result, Seq::empty());
            assert(body + Seq::<Inst>::empty() =~= body);
        }
        emit_return(&mut builder, result);
        finish_function(builder);
        proof {
            let code = body.push(Inst::Return { arg: result });
            assert(context_code(ctx) == Some(code));
            assert(code.drop_last() =~= body);
            assert forall|ops: FloatOps| #[trigger] result_of(code, ops) == expr.value(ops) by {
                lemma_function_returns_value(*expr, code, ops);
            }
        }
        (ctx, is_float)
    }

    /// The function that `expr` compiles to, before it is compiled: its code
    /// in the code generator's text format.
    pub fn intermediate_code(&self, expr: &Expr) -> String {
        let (ctx, _) = self.build(expr);
        function_text(&ctx)
    }

    /// Compiles `expr` to a native function without parameters: the
    /// function that `build` makes of `expr` is handed to the code
    /// generator under a new name. The compiled function is of the kind of
    /// `expr`, as the function that was handed over is declared, and counts
    /// as used at `now`. Fails where the code generator does, and then
    /// leaves the cache as it was.
    pub fn compile_expr(&mut self, input: &str, expr: Expr, now: u64) -> (r: Result<
        CompiledFunction,
        CalculatorError,
    >)
        ensures
            final(self).text() == old(self).text(),
            final(self).entries() == old(self).entries(),
            final(self).has_tree() == old(self).has_tree(),
            final(self).hasher() == old(self).hasher(),
            match r {
                Ok(f) => f.last_used == now && (f.code_ptr is Float <==> expr.is_float()),
                Err(e) => exists|detail: Seq<char>| e@ == jit_failure(input@, detail),
            },
    {
        let (mut ctx, is_float) = self.build(&expr);
        let name = fresh_symbol("calc_");
        let installed = match install(&mut self.jit_module, name.as_str(), &mut ctx) {
            Ok(address) => Ok(address),
            Err(e) => Err(module_error_text(&e)),
        };
        let r = compiled(input, is_float, installed, now);
        proof {
            if r is Err {
                assert(r->Err_0@ == jit_failure(input@, installed->Err_0@));
            }
        }
        r
    }
}

/// What the set-up of the code generator returns for what the code
/// generator answered: the module that it made, or the diagnostic of its
/// failure.
pub fn started(outcome: Result<JITModule, String>) -> (r: Result<JITModule, CalculatorError>)
    ensures
        match outcome {
            Ok(module) => r == Ok::<JITModule, CalculatorError>(module),
            Err(detail) => r matches Err(e) && e@ == boot_failure(detail@),
        },
{
    match outcome {
        Ok(module) => Ok(module),
        Err(detail) => Err(boot_error(detail)),
    }
}

} // verus!
