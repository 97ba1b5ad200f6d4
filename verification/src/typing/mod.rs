//! The typing pass's data: kinds, typed expressions, and the environment a body is typed in.

pub mod types;
pub mod compiler;
pub mod expressions;
pub mod env;
pub mod function;
pub mod expression;
pub mod ast;
pub mod macros;
pub mod convert_helper;
