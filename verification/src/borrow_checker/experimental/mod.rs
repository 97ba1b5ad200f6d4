//! The group-based borrow checker.

pub mod grouped_ast;
pub mod group_laws;
pub mod check_usages;
pub mod walk_model;
pub mod errors;
pub mod keyed_map;
pub mod groupify;
pub mod groupify_types;
pub mod groupify_laws;
pub mod groupify_expr;
pub mod aliasing_info;
pub mod check;
