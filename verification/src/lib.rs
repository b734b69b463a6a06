//! A configuration-driven transpiler core.
//!
//! A language is declared as a set of named rules: statement rules (a literal
//! line prefix and a render template), block rules (literal start and end
//! prefixes and a template with a `{body}` placeholder), and operator rules
//! (reserved for expression-level substitution, not consumed by rendering).
//! The engine classifies each trimmed, non-empty line of a source text,
//! assembles a statement tree that reflects block nesting, and renders the
//! tree into target-language text by template substitution.
//!
//! Loading the configuration from disk, reading the source text, and writing
//! the rendered program are left to the caller; this crate works on plain
//! strings and values.

pub mod ast;
pub mod classify;
pub mod config;
pub mod error;
pub mod laws;
pub mod parse;
pub mod pipeline;
pub mod render;
pub mod text;

pub use ast::Statement;
pub use config::BlockDef;
pub use config::LanguageConfig;
pub use config::OperatorDef;
pub use config::StatementDef;
pub use classify::MatchOutcome;
pub use classify::classify_line;
pub use error::TranspileError;
pub use parse::parse_source;
pub use pipeline::transpile_c;
pub use pipeline::transpile_python;
pub use pipeline::wrap_c_program;
pub use pipeline::wrap_python_program;
pub use render::generate_c_code;
pub use render::generate_python_code;
pub use render::substitute_args;
pub use text::str_eq;
pub use text::starts_with;
pub use text::trim_str;
pub use text::replace_str;
