//! Bodies the compiler generates for builtin functions.

pub mod ssa_len_macro;
pub mod rsa_pop_macro;
pub mod rsa_new_macro;
pub mod abstract_body_macro;
pub mod lock_weak_macro;
