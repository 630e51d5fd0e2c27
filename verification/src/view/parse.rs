//! Reading the view grammar from tokens.

use vstd::prelude::*;
use crate::html::parse::{expr_end, lemma_expr_end_bounds, range_expr};
use crate::tokens::{all_tokens_view, peek_punct, TokenTree};
use crate::view::parse::grammar::{qelement_view, spec_view, Element, SyntaxError, ViewView};

pub mod component;
pub mod element;
pub mod grammar;
pub mod html_ident;

pub use html_ident::HtmlIdent;

verus! {

/// A view: the expression of its context, then a comma, then its element.
pub struct View {
    pub context: crate::tokens::Expr,
    pub element: Element,
}

impl View {
    /// Reads a view from all the tokens, as `spec_view` says; with the next free id.
    pub fn parse(tokens: &Vec<TokenTree>, id: u64) -> (r: Result<(View, u64), SyntaxError>)
        ensures
            r matches Ok((view, id2)) ==> spec_view(*tokens, id) == Some(
                (
                    ViewView {
                        context: all_tokens_view(view.context.tokens),
                        element: qelement_view(view.element),
                    },
                    id2,
                ),
            ),
            r is Err <==> spec_view(*tokens, id) is None,
    {
        let n = tokens.len();
        proof {
            lemma_expr_end_bounds(*tokens, 0, n as int);
        }
        let e = match expr_end(tokens, 0) {
            Some(e) => e,
            None => {
                return Err(SyntaxError);
            },
        };
        if !peek_punct(tokens, e, ',') {
            return Err(SyntaxError);
        }
        match Element::parse(tokens, e + 1, id) {
            Ok((element, end, id2)) => if end == n {
                Ok((View { context: range_expr(tokens, 0, e), element }, id2))
            } else {
                Err(SyntaxError)
            },
            Err(err) => Err(err),
        }
    }
}

} // verus!
