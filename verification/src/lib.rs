//! A verified line-oriented source-to-source translator.
//!
//! The library reads a program in a small, line-granular surface language and
//! emits equivalent text in a C-family target language.  Each input line is
//! translated using only its own text together with the current nesting depth
//! and raw-capture flag; recorded symbol information is never consulted by
//! later lines.  That per-line rule is a documented invariant of the design.
//!
//! Two further documented choices: a bare closing brace on input that closes
//! more blocks than were opened clamps the nesting depth at zero rather than
//! failing, and records of an already-recorded variable or function name
//! silently overwrite, so the latest record wins.

pub mod emit;
pub mod engine;
pub mod parse;
pub mod props;
pub mod state;
pub mod text;

pub use engine::transpile_source;
pub use state::Translator;
