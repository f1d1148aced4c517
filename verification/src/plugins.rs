//! The logic of the bundled plugin modules.
//!
//! Each submodule holds the computation of one module; an engine backend
//! or a test harness wires it behind the raw module interface.

pub mod markdown;
pub mod random;
