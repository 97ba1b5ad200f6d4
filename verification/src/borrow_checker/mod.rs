//! The borrow checker: the grouped AST it walks, and the checks it runs over it.

pub mod group_expr;
pub mod ast_g;
pub mod kind_g;
pub mod experimental;
pub mod check_usages_types;
pub mod borrow_error;
pub mod access_event;
pub mod borrowing_ast;
pub mod symphony;
