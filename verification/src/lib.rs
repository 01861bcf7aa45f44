//! Translation of a comprehension, `mapping for pattern in sequence if condition ...`,
//! into a lazy iterator expression of the host language.

pub mod ast;
pub mod error;
pub mod grammar;
pub mod meaning;
pub mod parser;
pub mod render;
pub mod sublanguage;
pub mod target;
pub mod token;
