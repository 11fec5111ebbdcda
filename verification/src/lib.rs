//! Circular planting and mowing operations on a fixed rectangular field.
//!
//! A line of text holds whitespace-separated tokens such as `PLANTMOWjm13`.
//! Each token names an action, the centre of a disc and its diameter. The
//! tokens are decoded, applied in order to a field of cells, and the field is
//! rendered as text.

pub mod engine;
pub mod field;
pub mod laws;
pub mod parser;
pub mod run;

pub use engine::{apply_instruction, covers, Action, Instruction};
pub use field::{Cell, Grid, HEIGHT, WIDTH};
pub use parser::parse_token;
pub use run::{apply_tokens, run_line, Outcome};
