use vstd::prelude::*;

use crate::language::expr::{BinaryOpKind, Expr};

verus! {

/// An arithmetic instruction on two values.
pub enum Arith {
    Iadd,
    Isub,
    Imul,
    Fadd,
    Fsub,
    Fmul,
    Fdiv,
}

/// An instruction of the code generator. A value is named by the number
/// that the code generator gave it.
pub enum Inst {
    /// A 64-bit integer constant.
    Iconst { value: i64, result: u32 },
    /// A 64-bit float constant, given by its bit pattern.
    F64const { bits: u64, result: u32 },
    /// The conversion of a signed 64-bit integer to a 64-bit float.
    FcvtFromSint { arg: u32, result: u32 },
    /// An arithmetic operation.
    Binary { op: Arith, left: u32, right: u32, result: u32 },
    /// The return of one value.
    Return { arg: u32 },
}

impl Inst {
    /// The value that the instruction defines, if it defines one.
    pub open spec fn result(self) -> Option<u32> {
        match self {
            Inst::Iconst { result, .. } => Some(result),
            Inst::F64const { result, .. } => Some(result),
            Inst::FcvtFromSint { result, .. } => Some(result),
            Inst::Binary { result, .. } => Some(result),
            Inst::Return { .. } => None,
        }
    }
}

/// Whether one of the instructions of `code` defines the value `v`.
pub open spec fn defines(code: Seq<Inst>, v: u32) -> bool {
    exists|i: int| 0 <= i < code.len() && #[trigger] code[i].result() == Some(v)
}

/// The values that the instructions of `code` define, one for each
/// instruction that defines one, in order.
pub open spec fn results_of(code: Seq<Inst>) -> Seq<u32>
    decreases code.len(),
{
    if code.len() == 0 {
        Seq::empty()
    } else {
        match code.last().result() {
            Some(v) => results_of(code.drop_last()).push(v),
            None => results_of(code.drop_last()),
        }
    }
}

/// The instruction that computes `op` in the integer or in the float domain.
pub open spec fn arith_of(op: BinaryOpKind, float: bool) -> Arith {
    match op {
        BinaryOpKind::Add => if float {
            Arith::Fadd
        } else {
            Arith::Iadd
        },
        BinaryOpKind::Subtract => if float {
            Arith::Fsub
        } else {
            Arith::Isub
        },
        BinaryOpKind::Multiply => if float {
            Arith::Fmul
        } else {
            Arith::Imul
        },
        BinaryOpKind::Divide => Arith::Fdiv,
    }
}

impl Expr {
    /// The number of instructions that the expression is lowered to.
    pub open spec fn code_len(self) -> nat
        decreases self,
    {
        match self {
            Expr::Integer(_) => 1,
            Expr::Float(_) => 1,
            Expr::BinaryOp { left, op, right } => left.code_len() + right.code_len() + (if self.is_float()
                && !left.is_float() {
                1nat
            } else {
                0nat
            }) + (if self.is_float() && !right.is_float() {
                1nat
            } else {
                0nat
            }) + 1,
            Expr::Parenthesized(inner) => inner.code_len(),
        }
    }

    /// The instructions that the expression is lowered to, where `names` are
    /// the values that they define, in order. A literal is a constant. An
    /// operation holds the code of its left operand, then that of its right
    /// operand, then the conversion to float of each integer operand of a
    /// float operation, left before right, then the arithmetic instruction
    /// of its domain. The last instruction defines the expression's value.
    pub open spec fn code(self, names: Seq<u32>) -> Seq<Inst>
        decreases self,
    {
        match self {
            Expr::Integer(value) => seq![Inst::Iconst { value, result: names[0] }],
            Expr::Float(bits) => seq![Inst::F64const { bits, result: names[0] }],
            Expr::BinaryOp { left, op, right } => {
                let float = self.is_float();
                let nl = left.code_len() as int;
                let nr = right.code_len() as int;
                let left_value = names[nl - 1];
                let right_value = names[nl + nr - 1];
                let left_converts = float && !left.is_float();
                let right_converts = float && !right.is_float();
                let at = nl + nr + if left_converts {
                    1int
                } else {
                    0int
                };
                let left_arg = if left_converts {
                    names[nl + nr]
                } else {
                    left_value
                };
                let right_arg = if right_converts {
                    names[at]
                } else {
                    right_value
                };
                left.code(names.subrange(0, nl)) + right.code(names.subrange(nl, nl + nr))
                    + operation_code(
                    op,
                    left.is_float(),
                    right.is_float(),
                    left_value,
                    right_value,
                    left_arg,
                    right_arg,
                    names[self.code_len() - 1],
                )
            },
            Expr::Parenthesized(inner) => inner.code(names),
        }
    }
}

/// The values defined by two pieces of code in a row are those of the first,
/// then those of the second.
pub proof fn lemma_results_concat(a: Seq<Inst>, b: Seq<Inst>)
    ensures
        results_of(a + b) == results_of(a) + results_of(b),
    decreases b.len(),
{
    if b.len() == 0 {
        assert(a + b =~= a);
        assert(results_of(b) =~= Seq::<u32>::empty());
        assert(results_of(a) + results_of(b) =~= results_of(a));
    } else {
        lemma_results_concat(a, b.drop_last());
        assert((a + b).drop_last() =~= a + b.drop_last());
        assert((a + b).last() == b.last());
        match b.last().result() {
            Some(v) => {
                assert(results_of(a + b) == results_of(a + b.drop_last()).push(v));
                assert(results_of(b) == results_of(b.drop_last()).push(v));
                assert((results_of(a) + results_of(b.drop_last())).push(v) =~= results_of(a)
                    + results_of(b.drop_last()).push(v));
            },
            None => {
                assert(results_of(a + b) == results_of(a + b.drop_last()));
                assert(results_of(b) == results_of(b.drop_last()));
            },
        }
    }
}

/// One instruction that defines a value defines just that value.
pub proof fn lemma_results_one(inst: Inst)
    requires
        inst.result() is Some,
    ensures
        results_of(seq![inst]) == seq![inst.result()->0],
{
    let code = seq![inst];
    assert(code.drop_last() =~= Seq::<Inst>::empty());
    assert(results_of(code.drop_last()) =~= Seq::<u32>::empty());
    assert(results_of(code) == results_of(code.drop_last()).push(inst.result()->0));
    assert(results_of(code) =~= seq![inst.result()->0]);
}

/// A value among those that a piece of code defines is defined by it, also
/// when the code stands between other code.
pub proof fn lemma_defined_within(before: Seq<Inst>, code: Seq<Inst>, after: Seq<Inst>, k: int)
    requires
        0 <= k < results_of(code).len(),
    ensures
        defines(before + code + after, results_of(code)[k]),
    decreases code.len(),
{
    let v = results_of(code)[k];
    if code.len() == 0 {
    } else {
        let all = before + code + after;
        match code.last().result() {
            Some(last) => {
                assert(results_of(code) == results_of(code.drop_last()).push(last));
                if k == results_of(code).len() - 1 {
                    let at = before.len() + code.len() - 1;
                    assert(all[at] == code.last());
                    assert(all[at].result() == Some(v));
                } else {
                    lemma_defined_within(before, code.drop_last(), seq![code.last()] + after, k);
                    assert(before + code.drop_last() + (seq![code.last()] + after) =~= all);
                }
            },
            None => {
                assert(results_of(code) == results_of(code.drop_last()));
                lemma_defined_within(before, code.drop_last(), seq![code.last()] + after, k);
                assert(before + code.drop_last() + (seq![code.last()] + after) =~= all);
            },
        }
    }
}

/// Whether the names differ from each other and `before` defines none of
/// them.
pub open spec fn fresh_names(before: Seq<Inst>, names: Seq<u32>) -> bool {
    &&& names.no_duplicates()
    &&& forall|i: int| 0 <= i < names.len() ==> !defines(before, #[trigger] names[i])
}

/// The values that a piece of code defines are the values of `results_of`.
pub proof fn lemma_defines_results(code: Seq<Inst>, v: u32)
    ensures
        defines(code, v) <==> results_of(code).contains(v),
    decreases code.len(),
{
    if code.len() == 0 {
    } else {
        let shorter = code.drop_last();
        lemma_defines_results(shorter, v);
        if defines(code, v) {
            let i = choose|i: int| 0 <= i < code.len() && #[trigger] code[i].result() == Some(v);
            if i < code.len() - 1 {
                assert(shorter[i].result() == Some(v));
                let k = choose|k: int|
                    0 <= k < results_of(shorter).len() && results_of(shorter)[k] == v;
                assert(results_of(code)[k] == v);
            } else {
                assert(results_of(code).last() == v);
            }
        }
        if results_of(code).contains(v) {
            let k = choose|k: int| 0 <= k < results_of(code).len() && results_of(code)[k] == v;
            if code.last().result() == Some(v) {
                assert(code[code.len() - 1].result() == Some(v));
            } else {
                assert(results_of(shorter)[k] == v);
                let i = choose|i: int|
                    0 <= i < shorter.len() && #[trigger] shorter[i].result() == Some(v);
                assert(code[i].result() == Some(v));
            }
        }
    }
}

/// Two pieces of code in a row define what either of them defines.
pub proof fn lemma_defines_concat(a: Seq<Inst>, b: Seq<Inst>, v: u32)
    ensures
        defines(a + b, v) <==> defines(a, v) || defines(b, v),
{
    let all = a + b;
    if defines(all, v) {
        let i = choose|i: int| 0 <= i < all.len() && #[trigger] all[i].result() == Some(v);
        if i < a.len() {
            assert(a[i].result() == Some(v));
        } else {
            assert(b[i - a.len()].result() == Some(v));
        }
    }
    if defines(a, v) {
        let i = choose|i: int| 0 <= i < a.len() && #[trigger] a[i].result() == Some(v);
        assert(all[i].result() == Some(v));
    }
    if defines(b, v) {
        let i = choose|i: int| 0 <= i < b.len() && #[trigger] b[i].result() == Some(v);
        assert(all[a.len() + i].result() == Some(v));
    }
}

/// Names that are fresh behind a piece of code are fresh together with the
/// names that the code defines, where those are fresh.
pub proof fn lemma_fresh_concat(before: Seq<Inst>, first: Seq<Inst>, later: Seq<u32>)
    requires
        fresh_names(before, results_of(first)),
        fresh_names(before + first, later),
    ensures
        fresh_names(before, results_of(first) + later),
{
    let early = results_of(first);
    let names = early + later;
    assert forall|i: int| 0 <= i < names.len() implies !defines(before, #[trigger] names[i]) by {
        if i < early.len() {
            assert(names[i] == early[i]);
        } else {
            assert(names[i] == later[i - early.len()]);
            lemma_defines_concat(before, first, names[i]);
        }
    }
    assert forall|i: int, j: int| 0 <= i < names.len() && 0 <= j < names.len() && i != j implies
        names[i] != names[j] by {
        if i < early.len() && j < early.len() {
            assert(early[i] != early[j]);
        } else if i >= early.len() && j >= early.len() {
            assert(later[i - early.len()] != later[j - early.len()]);
        } else {
            let (e, l) = if i < early.len() {
                (i, j - early.len())
            } else {
                (j, i - early.len())
            };
            lemma_defines_results(first, early[e]);
            lemma_defines_concat(before, first, early[e]);
            assert(!defines(before + first, later[l]));
        }
    }
}

/// Whether `code` is `before` followed by the lowering of `expr` under new
/// names, and `value` is what the lowering defines last.
pub open spec fn lowered_onto(before: Seq<Inst>, code: Seq<Inst>, expr: Expr, value: u32) -> bool {
    let added = code.skip(before.len() as int);
    let names = results_of(added);
    &&& code.len() == before.len() + expr.code_len()
    &&& code.take(before.len() as int) == before
    &&& names.len() == expr.code_len()
    &&& added == expr.code(names)
    &&& value == names[names.len() - 1]
    &&& fresh_names(before, names)
}

/// Whether `code` is the function that `expr` compiles to: the lowering of
/// `expr` under new names, then the return of the value that the lowering
/// defines last.
pub open spec fn function_of(expr: Expr, code: Seq<Inst>) -> bool {
    &&& code.len() > 0
    &&& code.last() matches Inst::Return { arg }
    &&& lowered_onto(Seq::empty(), code.drop_last(), expr, arg)
}

/// The value of a lowering is defined by the code that holds the lowering,
/// and stays defined when more code follows.
pub proof fn lemma_lowered_defines(
    before: Seq<Inst>,
    code: Seq<Inst>,
    expr: Expr,
    value: u32,
    after: Seq<Inst>,
)
    requires
        lowered_onto(before, code, expr, value),
    ensures
        defines(code + after, value),
{
    let added = code.skip(before.len() as int);
    expr.lemma_code_len_positive();
    lemma_defined_within(before, added, after, results_of(added).len() - 1);
    assert(before + added =~= code);
}

impl Expr {
    /// An expression is lowered to one instruction at least.
    pub proof fn lemma_code_len_positive(self)
        ensures
            self.code_len() >= 1,
        decreases self,
    {
        match self {
            Expr::Parenthesized(inner) => inner.lemma_code_len_positive(),
            _ => {},
        }
    }
}

/// The code of a binary operation, put together from the code of its
/// operands and of the operation on their values, is the lowering of the
/// operation under the values that the pieces define.
pub proof fn lemma_binary_code(
    left: Expr,
    op: BinaryOpKind,
    right: Expr,
    left_code: Seq<Inst>,
    right_code: Seq<Inst>,
    last: Seq<Inst>,
    left_arg: u32,
    right_arg: u32,
    result: u32,
)
    requires
        results_of(left_code).len() == left.code_len(),
        left_code == left.code(results_of(left_code)),
        results_of(right_code).len() == right.code_len(),
        right_code == right.code(results_of(right_code)),
        last == operation_code(
            op,
            left.is_float(),
            right.is_float(),
            results_of(left_code).last(),
            results_of(right_code).last(),
            left_arg,
            right_arg,
            result,
        ),
        left.is_float() || !(right.is_float() || op == BinaryOpKind::Divide) ==> left_arg
            == results_of(left_code).last(),
        right.is_float() || !(left.is_float() || op == BinaryOpKind::Divide) ==> right_arg
            == results_of(right_code).last(),
    ensures
        ({
            let expr = Expr::BinaryOp { left: Box::new(left), op, right: Box::new(right) };
            let added = left_code + right_code + last;
            &&& results_of(added).len() == expr.code_len()
            &&& added == expr.code(results_of(added))
            &&& result == results_of(added).last()
        }),
{
    let expr = Expr::BinaryOp { left: Box::new(left), op, right: Box::new(right) };
    let float = expr.is_float();
    let left_value = results_of(left_code).last();
    let right_value = results_of(right_code).last();
    let left_conv = if float && !left.is_float() {
        seq![Inst::FcvtFromSint { arg: left_value, result: left_arg }]
    } else {
        Seq::empty()
    };
    let right_conv = if float && !right.is_float() {
        seq![Inst::FcvtFromSint { arg: right_value, result: right_arg }]
    } else {
        Seq::empty()
    };
    let arith = Inst::Binary { op: arith_of(op, float), left: left_arg, right: right_arg, result };
    assert(last == left_conv + right_conv + seq![arith]);
    let added = left_code + right_code + last;
    assert(added =~= left_code + right_code + left_conv + right_conv + seq![arith]);
    let nl = left.code_len() as int;
    let nr = right.code_len() as int;
    left.lemma_code_len_positive();
    right.lemma_code_len_positive();
    assert(results_of(Seq::<Inst>::empty()) =~= Seq::<u32>::empty());
    if float && !left.is_float() {
        lemma_results_one(left_conv[0]);
    }
    if float && !right.is_float() {
        lemma_results_one(right_conv[0]);
    }
    lemma_results_one(arith);
    lemma_results_concat(left_code, right_code);
    lemma_results_concat(left_code + right_code, left_conv);
    lemma_results_concat(left_code + right_code + left_conv, right_conv);
    lemma_results_concat(left_code + right_code + left_conv + right_conv, seq![arith]);
    let names = results_of(added);
    assert(names =~= results_of(left_code) + results_of(right_code) + results_of(left_conv)
        + results_of(right_conv) + seq![result]);
    assert(names.subrange(0, nl) =~= results_of(left_code));
    assert(names.subrange(nl, nl + nr) =~= results_of(right_code));
    assert(names[nl - 1] == left_value);
    assert(names[nl + nr - 1] == right_value);
    assert(names.len() == expr.code_len());
    assert(names[expr.code_len() - 1] == result);
    if float && !left.is_float() {
        assert(names[nl + nr] == left_arg);
        if float && !right.is_float() {
            assert(names[nl + nr + 1] == right_arg);
        }
    } else if float && !right.is_float() {
        assert(names[nl + nr] == right_arg);
    }
    assert(added =~= expr.code(names));
}

/// The conversion of one operand to float, where the operand is converted:
/// `arg` is then the value that the conversion defines.
pub open spec fn conversion_code(converts: bool, value: u32, arg: u32) -> Seq<Inst> {
    if converts {
        seq![Inst::FcvtFromSint { arg: value, result: arg }]
    } else {
        Seq::empty()
    }
}

/// The instructions of one operation on two values that are already
/// defined: the conversion to float of each integer operand of a float
/// operation, left before right, then the arithmetic instruction.
pub open spec fn operation_code(
    op: BinaryOpKind,
    left_float: bool,
    right_float: bool,
    left_value: u32,
    right_value: u32,
    left_arg: u32,
    right_arg: u32,
    result: u32,
) -> Seq<Inst> {
    let float = left_float || right_float || op == BinaryOpKind::Divide;
    conversion_code(float && !left_float, left_value, left_arg) + conversion_code(
        float && !right_float,
        right_value,
        right_arg,
    ) + seq![Inst::Binary { op: arith_of(op, float), left: left_arg, right: right_arg, result }]
}

/// The values that an operation defines are fresh where each was new when
/// its instruction was appended.
pub proof fn lemma_operation_fresh(
    before: Seq<Inst>,
    op: BinaryOpKind,
    left_float: bool,
    right_float: bool,
    left_value: u32,
    right_value: u32,
    left_arg: u32,
    right_arg: u32,
    result: u32,
)
    requires
        ({
            let float = left_float || right_float || op == BinaryOpKind::Divide;
            let left_conv = conversion_code(float && !left_float, left_value, left_arg);
            let right_conv = conversion_code(float && !right_float, right_value, right_arg);
            &&& float && !left_float ==> !defines(before, left_arg)
            &&& float && !right_float ==> !defines(before + left_conv, right_arg)
            &&& !defines(before + left_conv + right_conv, result)
        }),
    ensures
        fresh_names(
            before,
            results_of(
                operation_code(
                    op,
                    left_float,
                    right_float,
                    left_value,
                    right_value,
                    left_arg,
                    right_arg,
                    result,
                ),
            ),
        ),
{
    let float = left_float || right_float || op == BinaryOpKind::Divide;
    let left_conv = conversion_code(float && !left_float, left_value, left_arg);
    let right_conv = conversion_code(float && !right_float, right_value, right_arg);
    let last = Inst::Binary { op: arith_of(op, float), left: left_arg, right: right_arg, result };
    let code = operation_code(
        op,
        left_float,
        right_float,
        left_value,
        right_value,
        left_arg,
        right_arg,
        result,
    );
    assert(code == left_conv + right_conv + seq![last]);
    assert(results_of(Seq::<Inst>::empty()) =~= Seq::<u32>::empty());
    if float && !left_float {
        lemma_results_one(left_conv[0]);
    }
    if float && !right_float {
        lemma_results_one(right_conv[0]);
    }
    lemma_results_one(last);
    lemma_results_concat(left_conv, right_conv);
    lemma_results_concat(left_conv + right_conv, seq![last]);
    let names = results_of(code);
    assert(names =~= results_of(left_conv) + results_of(right_conv) + seq![result]);
    lemma_defines_concat(before, left_conv, right_arg);
    lemma_defines_concat(before, left_conv, result);
    lemma_defines_concat(before + left_conv, right_conv, result);
    if float && !left_float {
        assert(left_conv[0].result() == Some(left_arg));
        assert(defines(left_conv, left_arg));
    }
    if float && !right_float {
        assert(right_conv[0].result() == Some(right_arg));
        assert(defines(right_conv, right_arg));
    }
    assert forall|i: int| 0 <= i < names.len() implies !defines(before, #[trigger] names[i]) by {}
    assert forall|i: int, j: int| 0 <= i < names.len() && 0 <= j < names.len() && i != j implies
        names[i] != names[j] by {}
}

} // verus!
