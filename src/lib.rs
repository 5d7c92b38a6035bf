//! Compile-time token rewriting and self-referential packaging, verified.
//!
//! - `splice`: joins parts into a new identifier and renames a placeholder in a block.
//! - `fmt_args` and `log_attr`: the logging attribute's format scanner and body rewrite.
//! - `owning_handle`, `boxed`, `owned_slice`, `mutex`: owners packaged with what is
//!   derived from them.
//! - `breakpoint`: a notification that waiters subscribe to.

pub mod text;
pub mod tokens;
pub mod syntax;
pub mod fmt_args;
pub mod splice;
pub mod log_attr;
pub mod owning_handle;
pub mod boxed;
pub mod owned_slice;
pub mod mutex;
pub mod breakpoint;
