use vstd::bytes::{
    lemma_auto_spec_u64_to_from_le_bytes, spec_u64_from_le_bytes, spec_u64_to_le_bytes,
    u64_to_le_bytes,
};
use vstd::prelude::*;

verus! {

/// The four operators of the calculator.
#[derive(Debug, Clone, Copy, PartialEq, Eq, Structural, Hash)]
pub enum BinaryOpKind {
    Add,
    Subtract,
    Multiply,
    Divide,
}

impl BinaryOpKind {
    /// The byte that stands for the operator in an expression's structural
    /// encoding.
    pub open spec fn tag(self) -> u8 {
        match self {
            BinaryOpKind::Add => 0,
            BinaryOpKind::Subtract => 1,
            BinaryOpKind::Multiply => 2,
            BinaryOpKind::Divide => 3,
        }
    }

    /// The byte that stands for the operator in an expression's structural
    /// encoding.
    pub fn tag_byte(self) -> (r: u8)
        ensures
            r == self.tag(),
    {
        match self {
            BinaryOpKind::Add => 0,
            BinaryOpKind::Subtract => 1,
            BinaryOpKind::Multiply => 2,
            BinaryOpKind::Divide => 3,
        }
    }
}

/// A value of the calculator. A float is held by its IEEE-754 binary64 bit
/// pattern.
#[derive(Debug, Clone, Copy)]
pub enum CalcValue {
    Integer(i64),
    Float(u64),
}

impl Default for CalcValue {
    fn default() -> (r: Self)
        ensures
            r == CalcValue::Integer(0),
    {
        CalcValue::Integer(0)
    }
}

/// An expression tree. A float literal is held by its IEEE-754 binary64 bit
/// pattern, so that equal trees are equal bit for bit.
#[derive(Debug, PartialEq, Eq)]
pub enum Expr {
    Integer(i64),
    Float(u64),
    BinaryOp { left: Box<Expr>, op: BinaryOpKind, right: Box<Expr> },
    Parenthesized(Box<Expr>),
}

impl Clone for Expr {
    fn clone(&self) -> (r: Self)
        ensures
            r == *self,
        decreases self,
    {
        match self {
            Expr::Integer(n) => Expr::Integer(*n),
            Expr::Float(bits) => Expr::Float(*bits),
            Expr::BinaryOp { left, op, right } => Expr::BinaryOp {
                left: Box::new((**left).clone()),
                op: *op,
                right: Box::new((**right).clone()),
            },
            Expr::Parenthesized(inner) => Expr::Parenthesized(Box::new((**inner).clone())),
        }
    }
}

impl Expr {
    /// Whether the expression computes in the float domain: a float literal
    /// does, a binary operation does if either operand does or if it divides.
    pub open spec fn is_float(self) -> bool
        decreases self,
    {
        match self {
            Expr::Integer(_) => false,
            Expr::Float(_) => true,
            Expr::BinaryOp { left, op, right } => left.is_float() || right.is_float() || op
                == BinaryOpKind::Divide,
            Expr::Parenthesized(inner) => inner.is_float(),
        }
    }

    /// The representative value of the expression's type: a literal stands for
    /// itself, an operation for the zero of its domain.
    pub open spec fn resolved(self) -> CalcValue
        decreases self,
    {
        match self {
            Expr::Integer(n) => CalcValue::Integer(n),
            Expr::Float(bits) => CalcValue::Float(bits),
            Expr::BinaryOp { .. } => if self.is_float() {
                CalcValue::Float(0)
            } else {
                CalcValue::Integer(0)
            },
            Expr::Parenthesized(inner) => inner.resolved(),
        }
    }

    /// Whether a float literal occurs anywhere in the expression.
    pub open spec fn has_float_literal(self) -> bool
        decreases self,
    {
        match self {
            Expr::Integer(_) => false,
            Expr::Float(_) => true,
            Expr::BinaryOp { left, op, right } => left.has_float_literal()
                || right.has_float_literal(),
            Expr::Parenthesized(inner) => inner.has_float_literal(),
        }
    }

    /// Whether a division occurs anywhere in the expression.
    pub open spec fn has_divide(self) -> bool
        decreases self,
    {
        match self {
            Expr::Integer(_) => false,
            Expr::Float(_) => false,
            Expr::BinaryOp { left, op, right } => op == BinaryOpKind::Divide || left.has_divide()
                || right.has_divide(),
            Expr::Parenthesized(inner) => inner.has_divide(),
        }
    }

    /// An expression is of float type exactly when it holds a float literal or
    /// a division somewhere; otherwise it is of integer type.
    pub proof fn lemma_type_promotion(self)
        ensures
            self.is_float() <==> self.has_float_literal() || self.has_divide(),
            self.resolved() is Float <==> self.is_float(),
            self.resolved() is Integer <==> !self.is_float(),
        decreases self,
    {
        match self {
            Expr::Integer(_) => {},
            Expr::Float(_) => {},
            Expr::BinaryOp { left, op, right } => {
                left.lemma_type_promotion();
                right.lemma_type_promotion();
            },
            Expr::Parenthesized(inner) => {
                inner.lemma_type_promotion();
            },
        }
    }

    /// The expression's structural encoding: a tag byte for the variant, then
    /// its content. An integer is written as the eight little-endian bytes of
    /// its two's complement, a float as those of its bit pattern.
    pub open spec fn structure(self) -> Seq<u8>
        decreases self,
    {
        match self {
            Expr::Integer(n) => seq![0u8] + spec_u64_to_le_bytes(n as u64),
            Expr::Float(bits) => seq![1u8] + spec_u64_to_le_bytes(bits),
            Expr::BinaryOp { left, op, right } => seq![2u8] + left.structure() + seq![op.tag()]
                + right.structure(),
            Expr::Parenthesized(inner) => seq![3u8] + inner.structure(),
        }
    }

    /// An encoding is read back in one way only: where two encodings, each
    /// followed by more bytes, make the same sequence, the expressions are
    /// the same and so are the bytes that follow.
    pub proof fn lemma_structure_prefix_free(self, rest: Seq<u8>, other: Expr, other_rest: Seq<u8>)
        requires
            self.structure() + rest == other.structure() + other_rest,
        ensures
            self == other,
            rest == other_rest,
        decreases self,
    {
        lemma_auto_spec_u64_to_from_le_bytes();
        let a = self.structure() + rest;
        let b = other.structure() + other_rest;
        self.lemma_structure_starts_with_tag();
        other.lemma_structure_starts_with_tag();
        assert(a[0] == self.structure()[0]);
        assert(b[0] == other.structure()[0]);
        match (self, other) {
            (Expr::Integer(n), Expr::Integer(m)) => {
                let x = spec_u64_to_le_bytes(n as u64);
                let y = spec_u64_to_le_bytes(m as u64);
                assert(a.subrange(1, 9) =~= x);
                assert(b.subrange(1, 9) =~= y);
                assert(spec_u64_from_le_bytes(x) == spec_u64_from_le_bytes(y));
                assert(n as u64 == m as u64 ==> n == m) by (bit_vector);
                assert(a.subrange(9, a.len() as int) =~= rest);
                assert(b.subrange(9, b.len() as int) =~= other_rest);
            },
            (Expr::Float(n), Expr::Float(m)) => {
                let x = spec_u64_to_le_bytes(n);
                let y = spec_u64_to_le_bytes(m);
                assert(a.subrange(1, 9) =~= x);
                assert(b.subrange(1, 9) =~= y);
                assert(spec_u64_from_le_bytes(x) == spec_u64_from_le_bytes(y));
                assert(a.subrange(9, a.len() as int) =~= rest);
                assert(b.subrange(9, b.len() as int) =~= other_rest);
            },
            (
                Expr::BinaryOp { left, op, right },
                Expr::BinaryOp { left: other_left, op: other_op, right: other_right },
            ) => {
                let tail = seq![op.tag()] + right.structure() + rest;
                let other_tail = seq![other_op.tag()] + other_right.structure() + other_rest;
                assert(a.skip(1) =~= left.structure() + tail);
                assert(b.skip(1) =~= other_left.structure() + other_tail);
                left.lemma_structure_prefix_free(tail, *other_left, other_tail);
                assert(tail[0] == op.tag());
                assert(other_tail[0] == other_op.tag());
                assert(tail.skip(1) =~= right.structure() + rest);
                assert(other_tail.skip(1) =~= other_right.structure() + other_rest);
                right.lemma_structure_prefix_free(rest, *other_right, other_rest);
            },
            (Expr::Parenthesized(inner), Expr::Parenthesized(other_inner)) => {
                assert(a.skip(1) =~= inner.structure() + rest);
                assert(b.skip(1) =~= other_inner.structure() + other_rest);
                inner.lemma_structure_prefix_free(rest, *other_inner, other_rest);
            },
            _ => {},
        }
    }

    /// Expressions with the same encoding are the same expression.
    pub proof fn lemma_structure_injective(self, other: Expr)
        requires
            self.structure() == other.structure(),
        ensures
            self == other,
    {
        self.lemma_structure_prefix_free(Seq::empty(), other, Seq::empty());
    }

    proof fn lemma_structure_starts_with_tag(self)
        ensures
            self.structure().len() >= 1,
            self.structure()[0] == match self {
                Expr::Integer(_) => 0u8,
                Expr::Float(_) => 1u8,
                Expr::BinaryOp { .. } => 2u8,
                Expr::Parenthesized(_) => 3u8,
            },
    {
    }

    /// Appends the structural encoding of the expression to `out`.
    pub fn write_structure(&self, out: &mut Vec<u8>)
        ensures
            final(out)@ == old(out)@ + self.structure(),
        decreases self,
    {
        match self {
            Expr::Integer(n) => {
                out.push(0u8);
                let mut word = u64_to_le_bytes(#[verifier::truncate] (*n as u64));
                out.append(&mut word);
            },
            Expr::Float(bits) => {
                out.push(1u8);
                let mut word = u64_to_le_bytes(*bits);
                out.append(&mut word);
            },
            Expr::BinaryOp { left, op, right } => {
                out.push(2u8);
                left.write_structure(out);
                out.push(op.tag_byte());
                right.write_structure(out);
            },
            Expr::Parenthesized(inner) => {
                out.push(3u8);
                inner.write_structure(out);
            },
        }
    }
}

} // verus!
