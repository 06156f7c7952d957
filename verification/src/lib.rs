//! An audit-assistant library for scanning source text written in a Rust-like
//! contract language.  The heart of the crate is a line-oriented,
//! indentation-aware scanner that locates top-level declarations (functions,
//! structs, modules, conditionals, validation calls, account-context blocks)
//! by open/close token matching, without a full parser.  Around it stand the
//! record types and formatting helpers of the audit workflow: finding files,
//! metadata sections and report fragments.

pub mod commands;
pub mod findings;
pub mod metadata;
pub mod miro;
pub mod parser;
pub mod sonar;
pub mod strutil;
pub mod templates;
pub mod trait_metadata;
pub mod traits_metadata;
