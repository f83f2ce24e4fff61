//! Compile-time core of an observability-data pipeline.
//!
//! Two compilers make up the heart of this crate: a topology compiler that
//! turns a declarative graph of sources, transforms and sinks into a
//! validated, typed pipeline configuration, and an expression-language
//! compiler that turns an expression AST into a typed program with
//! fallibility and abortability analysis.  Around them stand the shared
//! type model (`Kind`), the schema requirement validator, and the small
//! value-level helpers of the surrounding components.

pub mod apex;
pub mod ast;
pub mod builder_hash;
pub mod compiler;
pub mod compound;
pub mod concurrency;
pub mod datadog;
pub mod diagnostic;
pub mod env;
pub mod expression;
pub mod funcs;
pub mod http_source;
pub mod journald;
pub mod kind;
pub mod metrics;
pub mod program;
pub mod schema;
pub mod splunk;
pub mod text;
pub mod topology;
pub mod trusted;
