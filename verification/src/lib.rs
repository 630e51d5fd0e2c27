//! Building blocks of the quux web framework: HTML elements and escaping,
//! the view grammar, request handlers and route matching.

pub mod text;
pub mod element;
pub mod entries;
pub mod handler;
pub mod html;
pub mod segment;
pub mod tokens;
pub mod view;
pub mod server;
pub mod matching;
pub mod macros;

pub use server::{server, Server};
