//! Decision logic of a packaging hook: which build environment, which
//! post-build commands and which dependency manifest each package format gets.
//! Running the commands is left to the caller; every decision is made here.

pub mod text;
pub mod format;
pub mod makepad;
pub mod deps;
pub mod pipeline;
