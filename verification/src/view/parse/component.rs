//! Components used within a view.

use vstd::prelude::*;
use crate::tokens::Expr;

verus! {

/// The properties a component is given: the expression between the parentheses
/// after its name, or `()` when there are none.
pub struct Props(pub Expr);

impl Props {
    /// The tokens of the properties.
    pub fn to_tokens(&self) -> (r: Expr)
        ensures
            r@ == self.0@,
    {
        self.0.copy()
    }
}

} // verus!
