//! Parts of the Roan language runtime: source positions and spans, call frames, errors
//! and diagnostics, UTF-8 source decoding, module identifiers and the loader's cache,
//! the scopes, typing rules, annotations and walk of the type pass, the evaluator's access
//! and assignment decisions, the resolver pass's declarations,
//! the built-in string, char and vector methods, and the log viewer's data.

pub mod position;
pub mod text;
pub mod span;
pub mod style;
pub mod frame;
pub mod error;
pub mod diagnostic;
pub mod source;
pub mod module;
pub mod interpreter;
pub mod methods;
pub mod link;
pub mod logs;
pub mod path;
