//! A todo manager over a plain Markdown file: the file format (reading and
//! writing), the section tree and its task rows, and every decision the
//! terminal interface makes for a key, each stated and proved with Verus.
pub mod date;
pub mod model;
pub mod text;
pub mod task;
pub mod parser;
pub mod shortcut;
pub mod roundtrip;
pub mod state;
pub mod tree;
pub mod refs;
pub mod filter;
pub mod edit;
pub mod input;
pub mod ops;
pub mod normal;
pub mod engine;
pub mod render;
pub mod cli;
