//! Core of the Glyph compiler's concurrency-aware middle end.

pub mod ast;
pub mod atomic;
pub mod closure_analysis;
pub mod closure_borrows;
pub mod closure_captures;
pub mod closure_flow;
pub mod closure_identities;
pub mod closure_laws;
pub mod closure_types;
pub mod closure_uses;
pub mod debug_text;
pub mod diag;
pub mod enums;
pub mod format;
pub mod lower;
pub mod mir;
pub mod mir_verify;
pub mod mir_verify_laws;
pub mod resolver;
pub mod table;
pub mod text;
pub mod text_laws;
pub mod thread;
pub mod thread_safety;
pub mod thread_safety_laws;
pub mod thread_safety_reach;
pub mod type_names;
pub mod type_parts;
pub mod types;
pub mod validation;
pub mod validation_laws;
pub mod validation_names;
