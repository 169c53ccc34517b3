pub mod cursor;
pub mod display;
pub mod error;
pub mod spec;
pub mod types;
pub mod tokenizer;

pub use tokenizer::{tokenize, tokenize_at};
