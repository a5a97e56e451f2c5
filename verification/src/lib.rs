//! The logic behind a desktop editor of diagrams: the advisory syntax check of
//! a diagram's source text, and the store of recently used files.
//!
//! The functions here are verified against their contracts. What they take
//! from the standard library, `chrono` and `dirs` is believed, not proved:
//! each such call is declared where it is made, with a comment that says
//! what is believed of it. Reading and writing files, asking the user for a
//! path and holding the store behind a lock are left to the caller, which
//! hands over what they gave.

pub mod clock;
pub mod commands;
pub mod diagram;
pub mod recent;
pub mod replay;
pub mod search;
pub mod storage;
pub mod templates;
pub mod text;
pub mod validator;
