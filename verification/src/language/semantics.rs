use vstd::prelude::*;

use crate::language::expr::{CalcValue, Expr};
use crate::language::code::{
    arith_of, defines, function_of, lowered_onto, results_of, Arith, Inst,
};

verus! {

/// The float arithmetic of a machine, on bit patterns: the four operations
/// and the conversion of a signed 64-bit integer.
pub struct FloatOps {
    pub add: spec_fn(u64, u64) -> u64,
    pub sub: spec_fn(u64, u64) -> u64,
    pub mul: spec_fn(u64, u64) -> u64,
    pub div: spec_fn(u64, u64) -> u64,
    pub from_int: spec_fn(i64) -> u64,
}

/// The integer that a value holds.
pub open spec fn int_of(value: CalcValue) -> i64 {
    match value {
        CalcValue::Integer(n) => n,
        CalcValue::Float(bits) => bits as i64,
    }
}

/// The float that a value holds, as its bit pattern.
pub open spec fn bits_of(value: CalcValue) -> u64 {
    match value {
        CalcValue::Integer(n) => n as u64,
        CalcValue::Float(bits) => bits,
    }
}

/// What an arithmetic instruction computes of two values. Integer
/// arithmetic wraps around.
pub open spec fn arith_value(op: Arith, left: CalcValue, right: CalcValue, ops: FloatOps) -> CalcValue {
    match op {
        Arith::Iadd => CalcValue::Integer((int_of(left) + int_of(right)) as i64),
        Arith::Isub => CalcValue::Integer((int_of(left) - int_of(right)) as i64),
        Arith::Imul => CalcValue::Integer((int_of(left) * int_of(right)) as i64),
        Arith::Fadd => CalcValue::Float((ops.add)(bits_of(left), bits_of(right))),
        Arith::Fsub => CalcValue::Float((ops.sub)(bits_of(left), bits_of(right))),
        Arith::Fmul => CalcValue::Float((ops.mul)(bits_of(left), bits_of(right))),
        Arith::Fdiv => CalcValue::Float((ops.div)(bits_of(left), bits_of(right))),
    }
}

/// A value as an operand of a float operation: an integer is converted.
pub open spec fn promoted(value: CalcValue, ops: FloatOps) -> CalcValue {
    match value {
        CalcValue::Integer(n) => CalcValue::Float((ops.from_int)(n)),
        CalcValue::Float(bits) => CalcValue::Float(bits),
    }
}

impl Expr {
    /// The value of the expression. An operation of integer type computes
    /// on integers, wrapping around; an operation of float type computes on
    /// floats, to which it converts each operand that is an integer.
    pub open spec fn value(self, ops: FloatOps) -> CalcValue
        decreases self,
    {
        match self {
            Expr::Integer(n) => CalcValue::Integer(n),
            Expr::Float(bits) => CalcValue::Float(bits),
            Expr::BinaryOp { left, op, right } => if self.is_float() {
                arith_value(
                    arith_of(op, true),
                    promoted(left.value(ops), ops),
                    promoted(right.value(ops), ops),
                    ops,
                )
            } else {
                arith_value(arith_of(op, false), left.value(ops), right.value(ops), ops)
            },
            Expr::Parenthesized(inner) => inner.value(ops),
        }
    }

    /// The value of an expression is of the expression's type.
    pub proof fn lemma_value_has_type(self, ops: FloatOps)
        ensures
            self.value(ops) is Float <==> self.is_float(),
        decreases self,
    {
        match self {
            Expr::BinaryOp { left, op, right } => {
                left.lemma_value_has_type(ops);
                right.lemma_value_has_type(ops);
            },
            Expr::Parenthesized(inner) => inner.lemma_value_has_type(ops),
            _ => {},
        }
    }
}

/// The values that are defined after one instruction, where `env` holds
/// those defined before it.
pub open spec fn step(env: Map<u32, CalcValue>, inst: Inst, ops: FloatOps) -> Map<u32, CalcValue> {
    match inst {
        Inst::Iconst { value, result } => env.insert(result, CalcValue::Integer(value)),
        Inst::F64const { bits, result } => env.insert(result, CalcValue::Float(bits)),
        Inst::FcvtFromSint { arg, result } => env.insert(
            result,
            CalcValue::Float((ops.from_int)(int_of(env[arg]))),
        ),
        Inst::Binary { op, left, right, result } => env.insert(
            result,
            arith_value(op, env[left], env[right], ops),
        ),
        Inst::Return { .. } => env,
    }
}

/// The values that are defined after the instructions of `code`, run from
/// first to last, where `env` holds those defined before.
pub open spec fn run(env: Map<u32, CalcValue>, code: Seq<Inst>, ops: FloatOps) -> Map<
    u32,
    CalcValue,
>
    decreases code.len(),
{
    if code.len() == 0 {
        env
    } else {
        step(run(env, code.drop_last(), ops), code.last(), ops)
    }
}

/// Running two pieces of code in a row is running the second after the
/// first.
pub proof fn lemma_run_concat(env: Map<u32, CalcValue>, a: Seq<Inst>, b: Seq<Inst>, ops: FloatOps)
    ensures
        run(env, a + b, ops) == run(run(env, a, ops), b, ops),
    decreases b.len(),
{
    if b.len() == 0 {
        assert(a + b =~= a);
    } else {
        lemma_run_concat(env, a, b.drop_last(), ops);
        assert((a + b).drop_last() =~= a + b.drop_last());
        assert((a + b).last() == b.last());
    }
}

/// Running one instruction is one step.
pub proof fn lemma_run_one(env: Map<u32, CalcValue>, inst: Inst, ops: FloatOps)
    ensures
        run(env, seq![inst], ops) == step(env, inst, ops),
{
    let code = seq![inst];
    assert(code.drop_last() =~= Seq::<Inst>::empty());
    assert(run(env, code.drop_last(), ops) == env);
}

/// Whether none of `names` is defined in `env`.
pub open spec fn all_new(env: Map<u32, CalcValue>, names: Seq<u32>) -> bool {
    forall|i: int| 0 <= i < names.len() ==> !env.dom().contains(#[trigger] names[i])
}

/// Whether `after` holds what `env` holds, and the values named by `names`
/// besides.
pub open spec fn extends(env: Map<u32, CalcValue>, after: Map<u32, CalcValue>, names: Seq<u32>) -> bool {
    &&& forall|v: u32|
        #![trigger env.dom().contains(v)]
        env.dom().contains(v) ==> after.dom().contains(v) && after[v] == env[v]
    &&& forall|v: u32|
        #![trigger after.dom().contains(v)]
        after.dom().contains(v) ==> env.dom().contains(v) || names.contains(v)
    &&& forall|i: int| 0 <= i < names.len() ==> after.dom().contains(#[trigger] names[i])
}

impl Expr {
    /// The lowering of an expression computes the value of the expression:
    /// run under names that are new and differ from each other, the code
    /// defines the value of the expression under the last name, defines the
    /// names and no others, and changes no value that was defined before.
    pub proof fn lemma_code_computes_value(
        self,
        names: Seq<u32>,
        env: Map<u32, CalcValue>,
        ops: FloatOps,
    )
        requires
            names.len() == self.code_len(),
            names.no_duplicates(),
            all_new(env, names),
        ensures
            run(env, self.code(names), ops)[names.last()] == self.value(ops),
            extends(env, run(env, self.code(names), ops), names),
        decreases self,
    {
        self.lemma_code_len_positive();
        match self {
            Expr::Integer(value) => {
                let inst = Inst::Iconst { value, result: names[0] };
                lemma_run_one(env, inst, ops);
                assert(self.code(names) == seq![inst]);
                assert(names.contains(names[0]));
                assert(!env.contains_key(names[0]));
            },
            Expr::Float(bits) => {
                let inst = Inst::F64const { bits, result: names[0] };
                lemma_run_one(env, inst, ops);
                assert(self.code(names) == seq![inst]);
                assert(names.contains(names[0]));
                assert(!env.contains_key(names[0]));
            },
            Expr::Parenthesized(inner) => {
                inner.lemma_code_computes_value(names, env, ops);
            },
            Expr::BinaryOp { left, op, right } => {
                let float = self.is_float();
                let nl = left.code_len() as int;
                let nr = right.code_len() as int;
                left.lemma_code_len_positive();
                right.lemma_code_len_positive();
                let left_names = names.subrange(0, nl);
                let right_names = names.subrange(nl, nl + nr);
                let left_converts = float && !left.is_float();
                let right_converts = float && !right.is_float();
                let at = nl + nr + if left_converts {
                    1int
                } else {
                    0int
                };
                let left_value = names[nl - 1];
                let right_value = names[nl + nr - 1];
                let left_arg = if left_converts {
                    names[nl + nr]
                } else {
                    left_value
                };
                let right_arg = if right_converts {
                    names[at]
                } else {
                    right_value
                };
                let result = names[self.code_len() - 1];
                let left_code = left.code(left_names);
                let right_code = right.code(right_names);
                let left_conv = if left_converts {
                    seq![Inst::FcvtFromSint { arg: left_value, result: left_arg }]
                } else {
                    Seq::empty()
                };
                let right_conv = if right_converts {
                    seq![Inst::FcvtFromSint { arg: right_value, result: right_arg }]
                } else {
                    Seq::empty()
                };
                let last = Inst::Binary {
                    op: arith_of(op, float),
                    left: left_arg,
                    right: right_arg,
                    result,
                };
                assert(self.code(names) == left_code + right_code + left_conv + right_conv
                    + seq![last]);

                // The left operand.
                assert forall|i: int| 0 <= i < left_names.len() implies !env.contains_key(
                    #[trigger] left_names[i],
                ) by {
                    assert(left_names[i] == names[i]);
                }
                left.lemma_code_computes_value(left_names, env, ops);
                left.lemma_value_has_type(ops);
                let env1 = run(env, left_code, ops);
                assert(left_names.last() == left_value);

                // The right operand.
                assert forall|i: int| 0 <= i < right_names.len() implies !env1.contains_key(
                    #[trigger] right_names[i],
                ) by {
                    let v = right_names[i];
                    assert(v == names[nl + i]);
                    if left_names.contains(v) {
                        let j = choose|j: int| 0 <= j < left_names.len() && left_names[j] == v;
                        assert(names[j] == names[nl + i]);
                    }
                }
                right.lemma_code_computes_value(right_names, env1, ops);
                right.lemma_value_has_type(ops);
                let env2 = run(env1, right_code, ops);
                assert(right_names.last() == right_value);
                assert(left_names.contains(left_value));
                assert(right_names.contains(right_value));
                assert(env2[left_value] == left.value(ops));
                assert(env2[right_value] == right.value(ops));

                // The conversions.
                let env3 = run(env2, left_conv, ops);
                if left_converts {
                    lemma_run_one(env2, left_conv[0], ops);
                } else {
                    assert(env3 == env2);
                }
                let env4 = run(env3, right_conv, ops);
                if right_converts {
                    lemma_run_one(env3, right_conv[0], ops);
                } else {
                    assert(env4 == env3);
                }
                assert forall|v: u32| env2.contains_key(v) implies (v != names[nl + nr] && v
                    != names[at] && v != result) by {
                    if env.contains_key(v) {
                    } else if left_names.contains(v) {
                        let j = choose|j: int| 0 <= j < left_names.len() && left_names[j] == v;
                        assert(names[j] == v);
                    } else {
                        assert(right_names.contains(v));
                        let j = choose|j: int| 0 <= j < right_names.len() && right_names[j] == v;
                        assert(names[nl + j] == v);
                    }
                }
                assert(env4[left_arg] == if float {
                    promoted(left.value(ops), ops)
                } else {
                    left.value(ops)
                });
                assert(env4[right_arg] == if float {
                    promoted(right.value(ops), ops)
                } else {
                    right.value(ops)
                });

                // The operation.
                let env5 = step(env4, last, ops);
                lemma_run_one(env4, last, ops);
                lemma_run_concat(env, left_code, right_code, ops);
                lemma_run_concat(env, left_code + right_code, left_conv, ops);
                lemma_run_concat(env, left_code + right_code + left_conv, right_conv, ops);
                lemma_run_concat(
                    env,
                    left_code + right_code + left_conv + right_conv,
                    seq![last],
                    ops,
                );
                assert(run(env, self.code(names), ops) == env5);
                assert(names.last() == result);
                assert(env5[result] == self.value(ops));

                assert forall|v: u32| env5.contains_key(v) implies env.contains_key(v)
                    || names.contains(v) by {
                    if v == result || (left_converts && v == left_arg) || (right_converts && v
                        == right_arg) {
                    } else {
                        assert(env2.contains_key(v));
                        if left_names.contains(v) {
                            let j = choose|j: int| 0 <= j < left_names.len() && left_names[j] == v;
                            assert(names[j] == v);
                        } else if right_names.contains(v) {
                            let j = choose|j: int|
                                0 <= j < right_names.len() && right_names[j] == v;
                            assert(names[nl + j] == v);
                        }
                    }
                }
                assert forall|i: int| 0 <= i < names.len() implies env5.contains_key(
                    #[trigger] names[i],
                ) by {
                    if i < nl {
                        assert(left_names[i] == names[i]);
                        assert(env1.contains_key(names[i]));
                        assert(env2.contains_key(names[i]));
                    } else if i < nl + nr {
                        assert(right_names[i - nl] == names[i]);
                        assert(env2.contains_key(names[i]));
                    } else if i == self.code_len() - 1 {
                    } else if left_converts && i == nl + nr {
                        assert(env3.contains_key(names[i]));
                    } else {
                        assert(right_converts && i == at);
                        assert(env4.contains_key(names[i]));
                    }
                }
                assert forall|v: u32| env.contains_key(v) implies env5.contains_key(v) && env5[v]
                    == env[v] by {
                    assert(env1.contains_key(v) && env1[v] == env[v]);
                    assert(env2.contains_key(v) && env2[v] == env[v]);
                }
            },
        }
    }
}

/// Code defines no value besides those of its instructions.
pub proof fn lemma_run_domain(env: Map<u32, CalcValue>, code: Seq<Inst>, ops: FloatOps, v: u32)
    requires
        run(env, code, ops).dom().contains(v),
    ensures
        env.dom().contains(v) || defines(code, v),
    decreases code.len(),
{
    if code.len() > 0 {
        let shorter = code.drop_last();
        if code.last().result() == Some(v) {
            assert(code[code.len() - 1].result() == Some(v));
        } else {
            assert(run(env, shorter, ops).dom().contains(v));
            lemma_run_domain(env, shorter, ops, v);
            if defines(shorter, v) {
                let i = choose|i: int|
                    0 <= i < shorter.len() && #[trigger] shorter[i].result() == Some(v);
                assert(code[i].result() == Some(v));
            }
        }
    }
}

/// Code that ends with the lowering of an expression, run from nothing,
/// defines the value of the expression under the name that the lowering
/// defines last.
pub proof fn lemma_lowering_runs(
    before: Seq<Inst>,
    code: Seq<Inst>,
    expr: Expr,
    value: u32,
    ops: FloatOps,
)
    requires
        lowered_onto(before, code, expr, value),
    ensures
        run(Map::empty(), code, ops).dom().contains(value),
        run(Map::empty(), code, ops)[value] == expr.value(ops),
{
    let added = code.skip(before.len() as int);
    let names = results_of(added);
    let env = run(Map::empty(), before, ops);
    assert forall|i: int| 0 <= i < names.len() implies !env.dom().contains(#[trigger] names[i]) by {
        if env.dom().contains(names[i]) {
            lemma_run_domain(Map::empty(), before, ops, names[i]);
        }
    }
    expr.lemma_code_computes_value(names, env, ops);
    expr.lemma_code_len_positive();
    lemma_run_concat(Map::empty(), before, added, ops);
    assert(before + added =~= code);
}

/// What a function returns: the value that its code, run from nothing,
/// defines under the name that its last instruction returns.
pub open spec fn result_of(code: Seq<Inst>, ops: FloatOps) -> CalcValue {
    match code.last() {
        Inst::Return { arg } => run(Map::empty(), code.drop_last(), ops)[arg],
        _ => arbitrary(),
    }
}

/// The function that an expression compiles to returns the value of the
/// expression, whatever the machine's float arithmetic is.
pub proof fn lemma_function_returns_value(expr: Expr, code: Seq<Inst>, ops: FloatOps)
    requires
        function_of(expr, code),
    ensures
        result_of(code, ops) == expr.value(ops),
{
    match code.last() {
        Inst::Return { arg } => {
            lemma_lowering_runs(Seq::empty(), code.drop_last(), expr, arg, ops);
        },
        _ => {},
    }
}

} // verus!
