//! The view grammar: HTML-like trees of elements, components and expressions.

pub mod generate;
pub mod parse;
