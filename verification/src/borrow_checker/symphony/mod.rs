//! The region-based checker's diagnostics.

pub mod errors;
pub mod groupify_function;
