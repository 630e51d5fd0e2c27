//! What an element holds between its braces.

use vstd::prelude::*;
use crate::tokens::Expr;
use crate::view::parse::element::attributes::{get_call, get_call_expr};
pub use crate::view::parse::grammar::{Children, ForLoop, ForLoopIterable, Items};

pub mod for_loop;

verus! {

/// The children of an element written as `{ $store }`: the element shows the
/// current value of the store.
pub struct ReactiveStore(pub Box<Expr>);

impl ReactiveStore {
    /// The tokens of `store.get()`, which read the current value of the store.
    pub fn to_tokens(&self) -> (r: Expr)
        ensures
            r@ == get_call(self.0@),
    {
        get_call_expr(&self.0)
    }
}

} // verus!
