//! Renders assembled machine code as text, and resolves named CPU targets to
//! the configuration of the Keystone assembler engine.
pub mod arch;
pub mod formats;
pub mod outcome;
