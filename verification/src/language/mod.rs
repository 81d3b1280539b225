pub mod cache;
pub mod code;
pub mod error;
pub mod expr;
pub mod hash;
pub mod input_buffer;
pub mod jit;
pub mod number;
pub mod parse;
pub mod semantics;
pub mod syntax;
pub mod text;

pub use crate::language::cache::{CompilationCache, CompiledFnPtr, CompiledFunction};
pub use crate::language::error::{CalcErrorKind, CalculatorError};
pub use crate::language::expr::{BinaryOpKind, CalcValue, Expr};
pub use crate::language::input_buffer::InputBuffer;
pub use crate::language::syntax::SyntaxNode;

use ahash::AHasher;
use cranelift_jit::JITModule;
use tree_sitter::{Parser, Tree};
use vstd::prelude::*;
use vstd::string::{StringExecFns, StringSliceAdditionalSpecFns};

use crate::language::cache::{no_entries, swept};
use crate::language::error::{ErrorView, KindView, SourceSpan};
use crate::language::hash::new_hasher;
use crate::language::jit::{boot_failure, jit_failure, new_module};
use crate::language::parse::{edit_descriptor, new_parser};

verus! {

/// The evaluator: the text being edited, the parser with the tree that it
/// retains, the module of native code, the cache of what was compiled and
/// the hasher that gives the expressions their keys in the cache.
pub struct Calculator {
    /// The parser. It parses nothing before it is given a grammar.
    pub parser: Parser,
    cache: CompilationCache,
    jit_module: JITModule,
    hasher: AHasher,
    input_buffer: InputBuffer,
}

/// What an evaluation hands to the caller: the compiled function to call
/// for the value, and whether it came from the cache. After a miss the
/// caller owes the cache a sweep.
#[derive(Debug, Clone, Copy, PartialEq, Eq, Structural)]
pub struct Evaluation {
    pub function: CompiledFunction,
    pub cache_hit: bool,
}

/// The diagnostic for a text of which the parser yields no tree: it covers
/// the whole text.
pub open spec fn parse_failure(source: Seq<char>, length: usize) -> ErrorView {
    ErrorView {
        name: "calculator"@,
        source,
        span: SourceSpan { offset: 0, length },
        kind: KindView::ParseError("Failed to parse input"@),
        help: Some("Make sure your expression is syntactically valid"@),
    }
}

/// Whether `outcome` and the entries `after` are what the evaluation of
/// `expr` under `key` at `now` leaves of the entries `before`. A hit hands
/// out the entry, used at `now`. A miss hands out a new function of the type
/// of `expr`, used at `now`, and enters it under `key`; where the code
/// generator fails, the entries stay as they were.
pub open spec fn resolution(
    before: Map<u64, CompiledFunction>,
    after: Map<u64, CompiledFunction>,
    source: Seq<char>,
    expr: Expr,
    key: u64,
    now: u64,
    outcome: Result<Evaluation, ErrorView>,
) -> bool {
    if before.contains_key(key) {
        &&& outcome == Ok::<Evaluation, ErrorView>(
            Evaluation { function: before[key].touched(now), cache_hit: true },
        )
        &&& after == before.insert(key, before[key].touched(now))
    } else {
        match outcome {
            Ok(evaluation) => {
                &&& !evaluation.cache_hit
                &&& evaluation.function.last_used == now
                &&& evaluation.function.code_ptr is Float <==> expr.is_float()
                &&& after == before.insert(key, evaluation.function)
            },
            Err(e) => {
                &&& exists|detail: Seq<char>| e == jit_failure(source, detail)
                &&& after == before
            },
        }
    }
}

/// Evaluating an expression twice under one key yields the same compiled
/// function both times, and the second evaluation is a hit: nothing is
/// compiled for it, and the keys of the cache stay as they are. In an
/// evaluator an expression has one key (`Calculator::key_of`), under which
/// `Calculator::evaluate` resolves it each time.
pub proof fn lemma_evaluation_is_idempotent(
    before: Map<u64, CompiledFunction>,
    between: Map<u64, CompiledFunction>,
    after: Map<u64, CompiledFunction>,
    source: Seq<char>,
    expr: Expr,
    key: u64,
    first_time: u64,
    second_time: u64,
    first: Result<Evaluation, ErrorView>,
    second: Result<Evaluation, ErrorView>,
)
    requires
        resolution(before, between, source, expr, key, first_time, first),
        first is Ok,
        resolution(between, after, source, expr, key, second_time, second),
    ensures
        second matches Ok(again) && again.cache_hit && again.function.code_ptr
            == first->Ok_0.function.code_ptr,
        after.dom() == between.dom(),
{
    assert(between.contains_key(key));
    assert(after.dom() =~= between.dom());
}

/// Idempotence: where two texts write the same expression, and the first is
/// evaluated with success, the evaluation of the second in what the first
/// left is a hit on the same compiled function. Nothing is compiled for it,
/// and only the time of the function's last use changes in the cache.
pub proof fn lemma_same_expression_hits(
    first_evaluator: Calculator,
    second_evaluator: Calculator,
    first_source: Seq<char>,
    second_source: Seq<char>,
    expr: Expr,
    first_time: u64,
    second_time: u64,
    first: Result<Evaluation, ErrorView>,
    second: Result<Evaluation, ErrorView>,
    after: Map<u64, CompiledFunction>,
)
    requires
        second_evaluator.hasher() == first_evaluator.hasher(),
        resolution(
            first_evaluator.entries(),
            second_evaluator.entries(),
            first_source,
            expr,
            first_evaluator.key_of(expr),
            first_time,
            first,
        ),
        first is Ok,
        resolution(
            second_evaluator.entries(),
            after,
            second_source,
            expr,
            second_evaluator.key_of(expr),
            second_time,
            second,
        ),
    ensures
        second matches Ok(again) && again.cache_hit && again.function
            == first->Ok_0.function.touched(second_time),
        after == second_evaluator.entries().insert(
            second_evaluator.key_of(expr),
            first->Ok_0.function.touched(second_time),
        ),
        after.dom() == second_evaluator.entries().dom(),
{
    let key = first_evaluator.key_of(expr);
    assert(second_evaluator.entries().contains_key(key));
    assert(second_evaluator.entries()[key] == first->Ok_0.function
        || second_evaluator.entries()[key] == first->Ok_0.function.touched(first_time));
    assert(after.dom() =~= second_evaluator.entries().dom());
}

/// What an evaluation returned, as mathematics.
pub open spec fn outcome_view(r: Result<Evaluation, CalculatorError>) -> Result<
    Evaluation,
    ErrorView,
> {
    match r {
        Ok(evaluation) => Ok(evaluation),
        Err(e) => Err(e@),
    }
}

impl Calculator {
    /// The bytes of the text as the evaluator holds it.
    pub closed spec fn text(&self) -> Seq<u8> {
        self.input_buffer@
    }

    /// The compiled functions that the cache holds, by key.
    pub closed spec fn entries(&self) -> Map<u64, CompiledFunction> {
        self.cache.entries()
    }

    /// Whether a parse tree is retained.
    pub closed spec fn has_tree(&self) -> bool {
        self.cache.has_tree()
    }

    /// An evaluator with an empty text, an empty cache and no tree, for the
    /// machine that this runs on. Its parser has no grammar yet. Fails where
    /// the code generator cannot be set up.
    pub fn new() -> (r: Result<Calculator, CalculatorError>)
        ensures
            match r {
                Ok(calculator) => calculator.text() == Seq::<u8>::empty() && calculator.entries()
                    == no_entries() && !calculator.has_tree(),
                Err(e) => exists|detail: Seq<char>| e@ == boot_failure(detail),
            },
    {
        let parser = new_parser();
        match new_module() {
            Ok(jit_module) => Ok(Calculator::with_module(parser, jit_module, new_hasher())),
            Err(e) => Err(e),
        }
    }

    /// The module of native code.
    pub closed spec fn module(&self) -> JITModule {
        self.jit_module
    }

    /// The parser, as a value.
    pub closed spec fn held_parser(&self) -> Parser {
        self.parser
    }

    /// The hasher that gives the expressions their keys.
    pub closed spec fn hasher(&self) -> AHasher {
        self.hasher
    }

    /// The hasher that gives the expressions their keys.
    pub(crate) fn hasher_ref(&self) -> (r: &AHasher)
        ensures
            *r == self.hasher(),
    {
        &self.hasher
    }

    /// An evaluator with an empty text, an empty cache and no tree, which
    /// parses with `parser`, compiles into `jit_module` and gives keys by
    /// `hasher`.
    pub fn with_module(parser: Parser, jit_module: JITModule, hasher: AHasher) -> (calculator:
        Calculator)
        ensures
            calculator.held_parser() == parser,
            calculator.module() == jit_module,
            calculator.hasher() == hasher,
            calculator.text() == Seq::<u8>::empty(),
            calculator.entries() == no_entries(),
            !calculator.has_tree(),
    {
        Calculator {
            parser,
            cache: CompilationCache::new(),
            jit_module,
            hasher,
            input_buffer: InputBuffer::new(),
        }
    }

    /// The retained parse tree.
    pub fn tree(&self) -> (r: Option<&Tree>)
        ensures
            r is Some == self.has_tree(),
    {
        self.cache.last_tree()
    }

    /// The number of compiled functions that the cache holds.
    pub fn cached(&self) -> (n: usize)
        ensures
            n == self.entries().len(),
    {
        self.cache.len()
    }

    /// The text as the evaluator holds it.
    pub fn input(&self) -> (r: &[u8])
        ensures
            r@ == self.text(),
    {
        self.input_buffer.as_bytes()
    }

    /// Takes one edit: applies it to the text and parses the text anew, with
    /// the help of the retained tree where there is one. `new_input` is the
    /// whole text after the edit; the changed region starts at `edit_pos`,
    /// ended at `old_end` before and ends at `new_end` now. The new tree is
    /// retained.
    pub fn update_input(
        &mut self,
        new_input: &str,
        edit_pos: usize,
        old_end: usize,
        new_end: usize,
    ) -> (r: Result<(), CalculatorError>)
        requires
            edit_pos <= new_end <= new_input.spec_bytes().len(),
        ensures
            final(self).text() == InputBuffer::edited(
                old(self).text(),
                new_input.spec_bytes(),
                edit_pos as int,
                new_end as int,
            ),
            final(self).entries() == old(self).entries(),
            final(self).hasher() == old(self).hasher(),
            match r {
                Ok(_) => final(self).has_tree(),
                Err(e) => final(self).has_tree() == old(self).has_tree() && e@ == parse_failure(
                    new_input@,
                    new_input.spec_bytes().len() as usize,
                ),
            },
    {
        self.input_buffer.update(new_input, edit_pos, old_end, new_end);
        let edit = edit_descriptor(edit_pos, old_end, new_end);
        let parsed = self.cache.reparse(&mut self.parser, self.input_buffer.as_bytes(), &edit);
        if parsed {
            Ok(())
        } else {
            Err(
                CalculatorError::on_source(
                    new_input,
                    0,
                    new_input.as_bytes().len(),
                    CalcErrorKind::ParseError(String::from_str("Failed to parse input")),
                    Some("Make sure your expression is syntactically valid"),
                ),
            )
        }
    }

    /// The type of `expr`: the representative value of the type, and whether
    /// it is the float type. A literal is of its own kind, a parenthesised
    /// expression of the type of what it holds, an operation of float type
    /// if an operand is or if it divides. Never fails.
    pub fn determine_type(&self, expr: &Expr) -> (r: Result<(CalcValue, bool), CalculatorError>)
        ensures
            r matches Ok(resolved) && resolved.0 == expr.resolved() && resolved.1
                == expr.is_float(),
        decreases expr,
    {
        Ok(
            match expr {
                Expr::Integer(n) => (CalcValue::Integer(*n), false),
                Expr::Float(bits) => (CalcValue::Float(*bits), true),
                Expr::BinaryOp { left, op, right } => {
                    let left_float = match self.determine_type(left) {
                        Ok((_, float)) => float,
                        Err(e) => {
                            return Err(e);
                        },
                    };
                    let right_float = match self.determine_type(right) {
                        Ok((_, float)) => float,
                        Err(e) => {
                            return Err(e);
                        },
                    };
                    let divides = match op {
                        BinaryOpKind::Divide => true,
                        _ => false,
                    };
                    if left_float || right_float || divides {
                        (CalcValue::Float(0), true)
                    } else {
                        (CalcValue::Integer(0), false)
                    }
                },
                Expr::Parenthesized(inner) => {
                    return self.determine_type(inner);
                },
            },
        )
    }

    /// Evaluates `expr` under the cache key `key` at the time `now`.
    pub fn resolve(&mut self, input: &str, expr: Expr, key: u64, now: u64) -> (r: Result<
        Evaluation,
        CalculatorError,
    >)
        ensures
            final(self).text() == old(self).text(),
            final(self).has_tree() == old(self).has_tree(),
            final(self).hasher() == old(self).hasher(),
            resolution(
                old(self).entries(),
                final(self).entries(),
                input@,
                expr,
                key,
                now,
                outcome_view(r),
            ),
    {
        if let Some(function) = self.cache.lookup(key, now) {
            return Ok(Evaluation { function, cache_hit: true });
        }
        match self.compile_expr(input, expr, now) {
            Ok(function) => {
                self.cache.insert(key, function);
                Ok(Evaluation { function, cache_hit: false })
            },
            Err(e) => Err(e),
        }
    }

    /// Evaluates the text `input`, of which `root` is the parse tree, at the
    /// time `now`: the first node marked as an error, or else the first
    /// failure of the lowering, gives the diagnostic; else the expression is
    /// resolved under its key, which is its structural hash.
    pub fn evaluate(&mut self, input: &str, root: &SyntaxNode, now: u64) -> (r: Result<
        Evaluation,
        CalculatorError,
    >)
        ensures
            final(self).text() == old(self).text(),
            final(self).has_tree() == old(self).has_tree(),
            final(self).hasher() == old(self).hasher(),
            root@.error_nodes().len() > 0 ==> final(self).entries() == old(self).entries()
                && outcome_view(r) == Err::<Evaluation, ErrorView>(
                root@.error_nodes()[0].syntax_failure(
                    input@,
                    "Ensure that your expression follows the correct syntax."@,
                ),
            ),
            root@.error_nodes().len() == 0 ==> match root@.lowered(input@) {
                Err(e) => final(self).entries() == old(self).entries() && outcome_view(r) == Err::<
                    Evaluation,
                    ErrorView,
                >(e),
                Ok(expr) => resolution(
                    old(self).entries(),
                    final(self).entries(),
                    input@,
                    expr,
                    old(self).key_of(expr),
                    now,
                    outcome_view(r),
                ),
            },
    {
        if let Err(e) = self.validate(input, root) {
            return Err(e);
        }
        let ast = match self.node_to_expr(input, root) {
            Ok(ast) => ast,
            Err(e) => {
                return Err(e);
            },
        };
        let key = self.hash_ast(&ast);
        self.resolve(input, ast, key, now)
    }

    /// Sweeps the cache at the time `now`: every entry last used the
    /// retention window or longer before `now` leaves.
    pub fn cleanup_cache(&mut self, now: u64)
        ensures
            final(self).text() == old(self).text(),
            final(self).has_tree() == old(self).has_tree(),
            final(self).hasher() == old(self).hasher(),
            final(self).entries() == swept(old(self).entries(), now),
    {
        self.cache.sweep(now);
    }
}

} // verus!
