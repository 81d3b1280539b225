use ahash::AHasher;
use std::hash::Hasher;
use vstd::prelude::*;

use crate::language::expr::Expr;
use crate::language::Calculator;

verus! {

#[verifier::external_type_specification]
#[verifier::external_body]
pub struct ExAHasher(AHasher);

/// The digest that a hasher in the state of `hasher` gives of `bytes`: what
/// it returns when it is fed the bytes and asked.
pub uninterp spec fn digest_of(hasher: AHasher, bytes: Seq<u8>) -> u64;

/// Trusted: `AHasher::default` returns a hasher. Its keys are drawn once in
/// each process, so nothing is said of the hasher.
#[verifier::external_body]
pub(crate) fn new_hasher() -> AHasher {
    AHasher::default()
}

/// Trusted: `Clone::clone` copies the state of the hasher; `Hasher::write`
/// and `Hasher::finish` on the copy compute from that state and the bytes
/// alone, and leave `hasher` as it was.
#[verifier::external_body]
fn digest(hasher: &AHasher, bytes: &[u8]) -> (r: u64)
    ensures
        r == digest_of(*hasher, bytes@),
{
    let mut copy = hasher.clone();
    copy.write(bytes);
    copy.finish()
}

impl Calculator {
    /// The key of `expr` in this evaluator: the digest of its structural
    /// encoding by the evaluator's hasher.
    pub open spec fn key_of(&self, expr: Expr) -> u64 {
        digest_of(self.hasher(), expr.structure())
    }

    /// The structural hash of `expr`: the digest of its structural encoding
    /// by the evaluator's hasher, which holds the keys that the process
    /// drew. Expressions of one structure have one hash.
    pub fn hash_ast(&self, expr: &Expr) -> (key: u64)
        ensures
            key == self.key_of(*expr),
    {
        let mut bytes: Vec<u8> = Vec::new();
        expr.write_structure(&mut bytes);
        assert(bytes@ =~= expr.structure());
        digest(self.hasher_ref(), bytes.as_slice())
    }
}

} // verus!
