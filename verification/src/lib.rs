//! The borrow checker and typing-pass helpers of the Valen compiler, with their contracts.

pub mod interner;
pub mod range;
pub mod names;
pub mod borrow_checker;
pub mod loc;
pub mod postparsing;
pub mod index_map;
pub mod typing;
pub mod compiler_error_reporter;
pub mod text;
