//! Loops within a view: `for pattern in iterable { item }`, under the names the
//! loop code uses.

pub use crate::view::parse::grammar::ForLoop;
pub use crate::view::parse::grammar::ForLoopIterable as Iterable;
