//! The logic of a coding agent that runs one loop strategy over a workspace, checks
//! every source write by building the project, and is scored on a CSV parser.
//!
//! The functions here take plain values and return plain values. Reading the
//! environment, talking to the model and running commands is the program's part.

pub mod build_check;
pub mod csv;
pub mod csv_laws;
pub mod prompt;
pub mod prompt_laws;
pub mod repl;
pub mod scoring;
pub mod startup;
pub mod strategy;
pub mod style;
pub mod text;
pub mod text_laws;
pub mod trace;
pub mod turn;
