//! A live expression evaluator: an input buffer that takes edits, a typed
//! expression tree built from a parse tree, integer/float type resolution,
//! native code generation and a cache of compiled expressions.
//!
//! One edit is taken in steps. `Calculator::update_input` applies the edit to
//! the text and has the parser parse it anew. The caller reads the retained
//! tree into a `SyntaxNode` and hands it to `Calculator::evaluate`, which
//! checks it, builds the expression and finds or compiles the native
//! function for it. The caller calls that function for the value, and after
//! a miss has the cache swept with `Calculator::cleanup_cache`.
//!
//! Times are nanoseconds on a clock of the caller's choice.

pub mod language;
