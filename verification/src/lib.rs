//! A tree-walking evaluator for a small dynamically-typed scripting language.
//!
//! The crate reduces an already-parsed syntax tree (`ast`) to a runtime value
//! (`object`) under a chain of binding contexts (`environment`).  The meaning of
//! every syntactic form is given once, as a mathematical interpreter over views
//! (`semantics`); the executable evaluator (`evaluator`) is proved to return
//! exactly what that interpreter prescribes.

pub mod ast;
pub mod text;
pub mod object;
pub mod environment;
pub mod builtin;
pub mod semantics;
pub mod evaluator;
pub mod laws;
pub mod totality;
