//! Reading the first form of the view grammar from tokens: items (elements,
//! components and braced expressions), attribute and property lists, and the
//! children of an element. The expressions within are Rust expressions, which
//! `syn` reads.

use vstd::prelude::*;
use crate::text::{push_char, push_str};
use crate::html::{Attribute, AttributeValue};
use crate::tokens::{
    all_tokens_view, clone_token, is_ident_at, is_punct_at, peek_ident, peek_punct, push_token,
    token_view, Delimiter, Expr, Spacing, TokenTree, TokenView,
};
use crate::view::parse::html_ident::{parse_html_ident, spec_html_ident, IdentError};

verus! {

/// The opening character of a delimiter; nothing for an invisible one.
pub open spec fn open_text(d: Delimiter) -> Seq<char> {
    match d {
        Delimiter::Parenthesis => seq!['('],
        Delimiter::Brace => seq!['{'],
        Delimiter::Bracket => seq!['['],
        Delimiter::Invisible => Seq::empty(),
    }
}

/// The closing character of a delimiter; nothing for an invisible one.
pub open spec fn close_text(d: Delimiter) -> Seq<char> {
    match d {
        Delimiter::Parenthesis => seq![')'],
        Delimiter::Brace => seq!['}'],
        Delimiter::Bracket => seq![']'],
        Delimiter::Invisible => Seq::empty(),
    }
}

/// The source text of a token tree, followed by a space unless it is a punctuation
/// character joined to the next one.
pub open spec fn token_text(t: TokenTree) -> Seq<char>
    decreases t, 0int,
{
    match t {
        TokenTree::Group(d, inner) => {
            proof {
                assert(decreases_to!(t => inner));
            }
            open_text(d) + range_text(inner, 0, inner@.len() as int) + close_text(d) + seq![' ']
        },
        TokenTree::Ident(name) => name@ + seq![' '],
        TokenTree::Punct(c, Spacing::Joint) => seq![c],
        TokenTree::Punct(c, Spacing::Alone) => seq![c, ' '],
        TokenTree::Literal(text) => text@ + seq![' '],
    }
}

/// The source text of the token trees `a` to `b` (not included) of `v`.
pub open spec fn range_text(v: Vec<TokenTree>, a: int, b: int) -> Seq<char>
    decreases v, b - a,
{
    if a < 0 || b > v@.len() || b <= a {
        Seq::empty()
    } else {
        proof {
            assert(decreases_to!(v => v@));
            assert(decreases_to!(v@ => v@[b - 1]));
        }
        range_text(v, a, b - 1) + token_text(v@[b - 1])
    }
}

/// Appends the source text of the token tree `t` to `out`.
fn push_token_text(out: &mut String, t: &TokenTree)
    ensures
        final(out)@ == old(out)@ + token_text(*t),
    decreases t, 0int,
{
    match t {
        TokenTree::Group(d, inner) => {
            proof {
                assert(decreases_to!(t => inner));
            }
            let ghost start = out@;
            match d {
                Delimiter::Parenthesis => push_char(out, '('),
                Delimiter::Brace => push_char(out, '{'),
                Delimiter::Bracket => push_char(out, '['),
                Delimiter::Invisible => {},
            }
            assert(out@ =~= start + open_text(*d));
            push_range_text(out, inner, 0, inner.len());
            let ghost middle = out@;
            match d {
                Delimiter::Parenthesis => push_char(out, ')'),
                Delimiter::Brace => push_char(out, '}'),
                Delimiter::Bracket => push_char(out, ']'),
                Delimiter::Invisible => {},
            }
            assert(out@ =~= middle + close_text(*d));
            push_char(out, ' ');
            assert(out@ =~= start + token_text(*t));
        },
        TokenTree::Ident(name) => {
            let ghost start = out@;
            push_str(out, name.as_str());
            push_char(out, ' ');
            assert(out@ =~= start + token_text(*t));
        },
        TokenTree::Punct(c, spacing) => {
            let ghost start = out@;
            push_char(out, *c);
            if let Spacing::Alone = spacing {
                push_char(out, ' ');
            }
            assert(out@ =~= start + token_text(*t));
        },
        TokenTree::Literal(text) => {
            let ghost start = out@;
            push_str(out, text.as_str());
            push_char(out, ' ');
            assert(out@ =~= start + token_text(*t));
        },
    }
}

/// Appends the source text of the token trees `a` to `b` of `v` to `out`.
fn push_range_text(out: &mut String, v: &Vec<TokenTree>, a: usize, b: usize)
    requires
        a <= b <= v@.len(),
    ensures
        final(out)@ == old(out)@ + range_text(*v, a as int, b as int),
    decreases v, b - a,
{
    let ghost start = out@;
    let mut i = a;
    assert(range_text(*v, a as int, a as int) =~= Seq::<char>::empty());
    assert(out@ =~= start + range_text(*v, a as int, a as int));
    while i < b
        invariant
            a <= i <= b <= v@.len(),
            out@ == start + range_text(*v, a as int, i as int),
        decreases b - i,
    {
        proof {
            assert(decreases_to!(v => v@));
            assert(decreases_to!(v@ => v@[i as int]));
        }
        push_token_text(out, &v[i]);
        i = i + 1;
        assert(out@ =~= start + range_text(*v, a as int, i as int));
    }
}

/// The source text of the token trees `a` to `b` of `v`.
pub(crate) fn range_string(v: &Vec<TokenTree>, a: usize, b: usize) -> (s: String)
    requires
        a <= b <= v@.len(),
    ensures
        s@ == range_text(*v, a as int, b as int),
{
    let mut s = String::new();
    push_range_text(&mut s, v, a, b);
    s
}

/// Whether `syn` reads the whole of `text` as one Rust expression.
pub uninterp spec fn syn_expr_text(text: Seq<char>) -> bool;

/// `syn::parse_str::<syn::Expr>`: whether `syn` reads the whole of `text` as one
/// Rust expression. The expression grammar is not restated.
#[verifier::external_body]
pub(crate) fn reads_as_expr(text: &str) -> (r: bool)
    ensures
        r == syn_expr_text(text@),
{
    syn::parse_str::<syn::Expr>(text).is_ok()
}

/// Whether the token trees `a` to `b` of `v` read as one Rust expression.
pub open spec fn is_expr(v: Vec<TokenTree>, a: int, b: int) -> bool {
    syn_expr_text(range_text(v, a, b))
}

/// Where an expression that starts at token `a` ends, looking no further than token
/// `p`: after the longest run of tokens from `a` that reads as one expression.
/// `None` when no run does.
pub open spec fn expr_end_from(v: Vec<TokenTree>, a: int, p: int) -> Option<int>
    decreases p - a,
{
    if p <= a {
        None
    } else if is_expr(v, a, p) {
        Some(p)
    } else {
        expr_end_from(v, a, p - 1)
    }
}

/// The end of an expression lies after its start and no further than where the
/// search starts.
pub proof fn lemma_expr_end_bounds(v: Vec<TokenTree>, a: int, p: int)
    ensures
        expr_end_from(v, a, p) matches Some(e) ==> a < e <= p,
    decreases p - a,
{
    if p > a {
        lemma_expr_end_bounds(v, a, p - 1);
    }
}

/// Finds the end of an expression that starts at token `a`, as `expr_end_from`
/// says from the end of the tokens.
pub(crate) fn expr_end(v: &Vec<TokenTree>, a: usize) -> (r: Option<usize>)
    requires
        a <= v@.len(),
    ensures
        match r {
            Some(e) => expr_end_from(*v, a as int, v@.len() as int) == Some(e as int),
            None => expr_end_from(*v, a as int, v@.len() as int) is None,
        },
{
    let mut p = v.len();
    while p > a
        invariant
            a <= p <= v@.len(),
            expr_end_from(*v, a as int, v@.len() as int) == expr_end_from(*v, a as int, p as int),
        decreases p - a,
    {
        let text = range_string(v, a, p);
        if reads_as_expr(text.as_str()) {
            return Some(p);
        }
        p = p - 1;
    }
    None
}

/// The values of the token trees `a` to `b` (not included) of `v`.
pub open spec fn range_view(v: Vec<TokenTree>, a: int, b: int) -> Seq<TokenView> {
    Seq::new((b - a) as nat, |i: int| token_view(v@[a + i]))
}

/// The expression made of copies of the token trees `a` to `b` of `v`.
pub(crate) fn range_expr(v: &Vec<TokenTree>, a: usize, b: usize) -> (e: Expr)
    requires
        a <= b <= v@.len(),
    ensures
        e@ == range_view(*v, a as int, b as int),
{
    let mut tokens: Vec<TokenTree> = Vec::new();
    let mut i = a;
    assert(all_tokens_view(tokens) =~= range_view(*v, a as int, a as int));
    while i < b
        invariant
            a <= i <= b <= v@.len(),
            all_tokens_view(tokens) == range_view(*v, a as int, i as int),
        decreases b - i,
    {
        let t = clone_token(&v[i]);
        push_token(&mut tokens, t);
        i = i + 1;
        assert(all_tokens_view(tokens) =~= range_view(*v, a as int, i as int));
    }
    Expr { tokens }
}

/// Why the view grammar could not be read.
#[derive(Clone, Copy, Debug, PartialEq, Eq, Structural)]
pub enum ParseError {
    /// An identifier was expected.
    ExpectedIdent,
    /// Two identifiers follow each other in an attribute key.
    UnexpectedWhitespace,
    /// `=` was expected after a key.
    ExpectedEquals,
    /// No expression could be read.
    ExpectedExpression,
    /// Attributes and properties must be separated by commas.
    ExpectedComma,
    /// The children of an element must stand between braces.
    ExpectedBraces,
    /// No item starts with this token.
    InvalidToken,
}

/// The value of an attribute, as a mathematical value.
pub enum ValueView {
    Reactive(Seq<TokenView>),
    Static(Seq<TokenView>),
}

/// The value of an attribute value.
pub open spec fn value_view(v: AttributeValue) -> ValueView {
    match v {
        AttributeValue::Reactive(e) => ValueView::Reactive(e@),
        AttributeValue::Static(e) => ValueView::Static(e@),
    }
}

/// The key and value of an attribute.
pub open spec fn attribute_view(a: Attribute) -> (Seq<char>, ValueView) {
    (a.key@, value_view(a.value))
}

/// The keys and values of a list of attributes.
pub open spec fn attributes_view(s: Seq<Attribute>) -> Seq<(Seq<char>, ValueView)> {
    s.map_values(|a: Attribute| attribute_view(a))
}

/// A property given to a component: `key = value`.
pub struct Prop {
    pub key: String,
    pub value: Expr,
}

/// The keys and values of a list of properties.
pub open spec fn props_view(s: Seq<Prop>) -> Seq<(Seq<char>, Seq<TokenView>)> {
    s.map_values(|p: Prop| (p.key@, p.value@))
}

/// An attribute value read from token `a` on, with the position after it: `$`
/// followed by an expression for a value bound to a store, an expression otherwise.
pub open spec fn spec_value(v: Vec<TokenTree>, a: int) -> Result<(ValueView, int), ParseError> {
    if is_punct_at(v@, a, '$') {
        match expr_end_from(v, a + 1, v@.len() as int) {
            Some(e) => Ok((ValueView::Reactive(range_view(v, a + 1, e)), e)),
            None => Err(ParseError::ExpectedExpression),
        }
    } else {
        match expr_end_from(v, a, v@.len() as int) {
            Some(e) => Ok((ValueView::Static(range_view(v, a, e)), e)),
            None => Err(ParseError::ExpectedExpression),
        }
    }
}

/// An attribute `key = value` read from token `a` on, with the position after it.
pub open spec fn spec_attribute(v: Vec<TokenTree>, a: int) -> Result<
    ((Seq<char>, ValueView), int),
    ParseError,
> {
    match spec_html_ident(v@, a, false) {
        Err(IdentError::ExpectedIdent) => Err(ParseError::ExpectedIdent),
        Err(IdentError::UnexpectedWhitespace) => Err(ParseError::UnexpectedWhitespace),
        Ok((key, k)) => if is_punct_at(v@, k, '=') {
            match spec_value(v, k + 1) {
                Ok((value, e)) => Ok(((key, value), e)),
                Err(err) => Err(err),
            }
        } else {
            Err(ParseError::ExpectedEquals)
        },
    }
}

/// A property `key = value` read from token `a` on, with the position after it.
pub open spec fn spec_prop(v: Vec<TokenTree>, a: int) -> Result<
    ((Seq<char>, Seq<TokenView>), int),
    ParseError,
> {
    if !is_ident_at(v@, a) {
        Err(ParseError::ExpectedIdent)
    } else if !is_punct_at(v@, a + 1, '=') {
        Err(ParseError::ExpectedEquals)
    } else {
        match expr_end_from(v, a + 2, v@.len() as int) {
            Some(e) => Ok(((v@[a]->Ident_0@, range_view(v, a + 2, e)), e)),
            None => Err(ParseError::ExpectedExpression),
        }
    }
}

/// An attribute read from token `a` on ends after `a`, and within the tokens.
pub proof fn lemma_attribute_end(v: Vec<TokenTree>, a: int)
    requires
        0 <= a <= v@.len(),
    ensures
        spec_attribute(v, a) matches Ok((_, e)) ==> a < e <= v@.len(),
{
    if let Ok((_, k)) = spec_html_ident(v@, a, false) {
        crate::view::parse::html_ident::lemma_html_ident_end(v@, a, false);
        if is_punct_at(v@, k, '=') {
            if is_punct_at(v@, k + 1, '$') {
                lemma_expr_end_bounds(v, k + 2, v@.len() as int);
            } else {
                lemma_expr_end_bounds(v, k + 1, v@.len() as int);
            }
        }
    }
}

/// A property read from token `a` on ends after `a`, and within the tokens.
pub proof fn lemma_prop_end(v: Vec<TokenTree>, a: int)
    requires
        0 <= a <= v@.len(),
    ensures
        spec_prop(v, a) matches Ok((_, e)) ==> a < e <= v@.len(),
{
    if is_ident_at(v@, a) && is_punct_at(v@, a + 1, '=') {
        lemma_expr_end_bounds(v, a + 2, v@.len() as int);
    }
}

/// The attributes of a parenthesized list, read from token `p` on: attributes
/// separated by commas, a last comma allowed.
pub open spec fn spec_attributes_from(v: Vec<TokenTree>, p: int) -> Result<
    Seq<(Seq<char>, ValueView)>,
    ParseError,
>
    decreases v@.len() - p,
{
    if p < 0 || p >= v@.len() {
        Ok(Seq::empty())
    } else {
        match spec_attribute(v, p) {
            Err(e) => Err(e),
            Ok((attribute, k)) => if k >= v@.len() {
                Ok(seq![attribute])
            } else if is_punct_at(v@, k, ',') {
                proof {
                    lemma_attribute_end(v, p);
                }
                match spec_attributes_from(v, k + 1) {
                    Ok(rest) => Ok(seq![attribute] + rest),
                    Err(e) => Err(e),
                }
            } else {
                Err(ParseError::ExpectedComma)
            },
        }
    }
}

/// The properties of a parenthesized list, read from token `p` on: properties
/// separated by commas, a last comma allowed.
pub open spec fn spec_props_from(v: Vec<TokenTree>, p: int) -> Result<
    Seq<(Seq<char>, Seq<TokenView>)>,
    ParseError,
>
    decreases v@.len() - p,
{
    if p < 0 || p >= v@.len() {
        Ok(Seq::empty())
    } else {
        match spec_prop(v, p) {
            Err(e) => Err(e),
            Ok((prop, k)) => if k >= v@.len() {
                Ok(seq![prop])
            } else if is_punct_at(v@, k, ',') {
                proof {
                    lemma_prop_end(v, p);
                }
                match spec_props_from(v, k + 1) {
                    Ok(rest) => Ok(seq![prop] + rest),
                    Err(e) => Err(e),
                }
            } else {
                Err(ParseError::ExpectedComma)
            },
        }
    }
}

impl AttributeValue {
    /// Reads an attribute value from token `a` on, as `spec_value` says.
    pub fn parse(v: &Vec<TokenTree>, a: usize) -> (r: Result<(AttributeValue, usize), ParseError>)
        requires
            a <= v@.len(),
        ensures
            match r {
                Ok((value, e)) => spec_value(*v, a as int) == Ok::<(ValueView, int), ParseError>(
                    (value_view(value), e as int),
                ),
                Err(err) => spec_value(*v, a as int) == Err::<(ValueView, int), ParseError>(err),
            },
    {
        let n = v.len();
        if peek_punct(v, a, '$') {
            proof {
                lemma_expr_end_bounds(*v, a + 1, v@.len() as int);
            }
            match expr_end(v, a + 1) {
                Some(e) => Ok((AttributeValue::Reactive(range_expr(v, a + 1, e)), e)),
                None => Err(ParseError::ExpectedExpression),
            }
        } else {
            proof {
                lemma_expr_end_bounds(*v, a as int, v@.len() as int);
            }
            match expr_end(v, a) {
                Some(e) => Ok((AttributeValue::Static(range_expr(v, a, e)), e)),
                None => Err(ParseError::ExpectedExpression),
            }
        }
    }
}

impl Attribute {
    /// Reads an attribute `key = value` from token `a` on, as `spec_attribute` says.
    pub fn parse(v: &Vec<TokenTree>, a: usize) -> (r: Result<(Attribute, usize), ParseError>)
        requires
            a <= v@.len(),
        ensures
            match r {
                Ok((attribute, e)) => spec_attribute(*v, a as int) == Ok::<
                    ((Seq<char>, ValueView), int),
                    ParseError,
                >((attribute_view(attribute), e as int)),
                Err(err) => spec_attribute(*v, a as int) == Err::<
                    ((Seq<char>, ValueView), int),
                    ParseError,
                >(err),
            },
    {
        let n = v.len();
        proof {
            crate::view::parse::html_ident::lemma_html_ident_end(v@, a as int, false);
        }
        match parse_html_ident(v, a, false) {
            Err(IdentError::ExpectedIdent) => Err(ParseError::ExpectedIdent),
            Err(IdentError::UnexpectedWhitespace) => Err(ParseError::UnexpectedWhitespace),
            Ok((key, k)) => {
                if peek_punct(v, k, '=') {
                    match AttributeValue::parse(v, k + 1) {
                        Ok((value, e)) => Ok((Attribute { key, value }, e)),
                        Err(err) => Err(err),
                    }
                } else {
                    Err(ParseError::ExpectedEquals)
                }
            },
        }
    }
}

impl Prop {
    /// Reads a property `key = value` from token `a` on, as `spec_prop` says.
    pub fn parse(v: &Vec<TokenTree>, a: usize) -> (r: Result<(Prop, usize), ParseError>)
        requires
            a <= v@.len(),
        ensures
            match r {
                Ok((prop, e)) => spec_prop(*v, a as int) == Ok::<
                    ((Seq<char>, Seq<TokenView>), int),
                    ParseError,
                >(((prop.key@, prop.value@), e as int)),
                Err(err) => spec_prop(*v, a as int) == Err::<
                    ((Seq<char>, Seq<TokenView>), int),
                    ParseError,
                >(err),
            },
    {
        let n = v.len();
        if !peek_ident(v, a) {
            return Err(ParseError::ExpectedIdent);
        }
        if !peek_punct(v, a + 1, '=') {
            return Err(ParseError::ExpectedEquals);
        }
        let key = match &v[a] {
            TokenTree::Ident(name) => name.clone(),
            _ => String::new(),
        };
        proof {
            lemma_expr_end_bounds(*v, a + 2, v@.len() as int);
        }
        match expr_end(v, a + 2) {
            Some(e) => Ok((Prop { key, value: range_expr(v, a + 2, e) }, e)),
            None => Err(ParseError::ExpectedExpression),
        }
    }
}

/// Reads the attributes of a parenthesized list, as `spec_attributes_from` says
/// from its first token on.
pub fn parse_attributes(v: &Vec<TokenTree>) -> (r: Result<Vec<Attribute>, ParseError>)
    ensures
        match r {
            Ok(list) => spec_attributes_from(*v, 0) == Ok::<
                Seq<(Seq<char>, ValueView)>,
                ParseError,
            >(attributes_view(list@)),
            Err(err) => spec_attributes_from(*v, 0) == Err::<
                Seq<(Seq<char>, ValueView)>,
                ParseError,
            >(err),
        },
{
    let mut list: Vec<Attribute> = Vec::new();
    let mut p: usize = 0;
    while p < v.len()
        invariant
            p <= v@.len(),
            forall|s: Seq<(Seq<char>, ValueView)>| #[trigger]
                spec_attributes_from(*v, p as int) == Ok::<Seq<(Seq<char>, ValueView)>, ParseError>(s)
                    ==> spec_attributes_from(*v, 0) == Ok::<Seq<(Seq<char>, ValueView)>, ParseError>(
                    attributes_view(list@) + s,
                ),
            forall|e: ParseError| #[trigger]
                spec_attributes_from(*v, p as int) == Err::<Seq<(Seq<char>, ValueView)>, ParseError>(e)
                    ==> spec_attributes_from(*v, 0) == Err::<Seq<(Seq<char>, ValueView)>, ParseError>(e),
        decreases v@.len() - p,
    {
        proof {
            lemma_attribute_end(*v, p as int);
        }
        match Attribute::parse(v, p) {
            Err(err) => {
                return Err(err);
            },
            Ok((attribute, k)) => {
                let ghost before = list@;
                let ghost one = attribute_view(attribute);
                list.push(attribute);
                assert(attributes_view(list@) =~= attributes_view(before) + seq![one]);
                if k >= v.len() {
                    assert(spec_attributes_from(*v, p as int) == Ok::<
                        Seq<(Seq<char>, ValueView)>,
                        ParseError,
                    >(seq![one]));
                    assert(attributes_view(before) + seq![one] =~= attributes_view(list@) + Seq::<
                        (Seq<char>, ValueView),
                    >::empty());
                    p = k;
                } else if peek_punct(v, k, ',') {
                    proof {
                        assert forall|s: Seq<(Seq<char>, ValueView)>| #[trigger]
                            spec_attributes_from(*v, k + 1) == Ok::<
                                Seq<(Seq<char>, ValueView)>,
                                ParseError,
                            >(s) implies spec_attributes_from(*v, 0) == Ok::<
                            Seq<(Seq<char>, ValueView)>,
                            ParseError,
                        >(attributes_view(list@) + s) by {
                            assert(spec_attributes_from(*v, p as int) == Ok::<
                                Seq<(Seq<char>, ValueView)>,
                                ParseError,
                            >(seq![one] + s));
                            assert(attributes_view(before) + (seq![one] + s) =~= attributes_view(
                                list@,
                            ) + s);
                        }
                        assert forall|e: ParseError| #[trigger]
                            spec_attributes_from(*v, k + 1) == Err::<
                                Seq<(Seq<char>, ValueView)>,
                                ParseError,
                            >(e) implies spec_attributes_from(*v, 0) == Err::<
                            Seq<(Seq<char>, ValueView)>,
                            ParseError,
                        >(e) by {
                            assert(spec_attributes_from(*v, p as int) == Err::<
                                Seq<(Seq<char>, ValueView)>,
                                ParseError,
                            >(e));
                        }
                    }
                    p = k + 1;
                } else {
                    return Err(ParseError::ExpectedComma);
                }
            },
        }
    }
    assert(spec_attributes_from(*v, p as int) == Ok::<Seq<(Seq<char>, ValueView)>, ParseError>(
        Seq::empty(),
    ));
    assert(attributes_view(list@) + Seq::<(Seq<char>, ValueView)>::empty() =~= attributes_view(
        list@,
    ));
    Ok(list)
}

/// Reads the properties of a parenthesized list, as `spec_props_from` says from its
/// first token on.
pub fn parse_props(v: &Vec<TokenTree>) -> (r: Result<Vec<Prop>, ParseError>)
    ensures
        match r {
            Ok(list) => spec_props_from(*v, 0) == Ok::<
                Seq<(Seq<char>, Seq<TokenView>)>,
                ParseError,
            >(props_view(list@)),
            Err(err) => spec_props_from(*v, 0) == Err::<
                Seq<(Seq<char>, Seq<TokenView>)>,
                ParseError,
            >(err),
        },
{
    let mut list: Vec<Prop> = Vec::new();
    let mut p: usize = 0;
    while p < v.len()
        invariant
            p <= v@.len(),
            forall|s: Seq<(Seq<char>, Seq<TokenView>)>| #[trigger]
                spec_props_from(*v, p as int) == Ok::<Seq<(Seq<char>, Seq<TokenView>)>, ParseError>(s)
                    ==> spec_props_from(*v, 0) == Ok::<Seq<(Seq<char>, Seq<TokenView>)>, ParseError>(
                    props_view(list@) + s,
                ),
            forall|e: ParseError| #[trigger]
                spec_props_from(*v, p as int) == Err::<Seq<(Seq<char>, Seq<TokenView>)>, ParseError>(e)
                    ==> spec_props_from(*v, 0) == Err::<Seq<(Seq<char>, Seq<TokenView>)>, ParseError>(e),
        decreases v@.len() - p,
    {
        proof {
            lemma_prop_end(*v, p as int);
        }
        match Prop::parse(v, p) {
            Err(err) => {
                return Err(err);
            },
            Ok((prop, k)) => {
                let ghost before = list@;
                let ghost one = (prop.key@, prop.value@);
                list.push(prop);
                assert(props_view(list@) =~= props_view(before) + seq![one]);
                if k >= v.len() {
                    assert(spec_props_from(*v, p as int) == Ok::<
                        Seq<(Seq<char>, Seq<TokenView>)>,
                        ParseError,
                    >(seq![one]));
                    assert(props_view(before) + seq![one] =~= props_view(list@) + Seq::<
                        (Seq<char>, Seq<TokenView>),
                    >::empty());
                    p = k;
                } else if peek_punct(v, k, ',') {
                    proof {
                        assert forall|s: Seq<(Seq<char>, Seq<TokenView>)>| #[trigger]
                            spec_props_from(*v, k + 1) == Ok::<
                                Seq<(Seq<char>, Seq<TokenView>)>,
                                ParseError,
                            >(s) implies spec_props_from(*v, 0) == Ok::<
                            Seq<(Seq<char>, Seq<TokenView>)>,
                            ParseError,
                        >(props_view(list@) + s) by {
                            assert(spec_props_from(*v, p as int) == Ok::<
                                Seq<(Seq<char>, Seq<TokenView>)>,
                                ParseError,
                            >(seq![one] + s));
                            assert(props_view(before) + (seq![one] + s) =~= props_view(list@) + s);
                        }
                        assert forall|e: ParseError| #[trigger]
                            spec_props_from(*v, k + 1) == Err::<
                                Seq<(Seq<char>, Seq<TokenView>)>,
                                ParseError,
                            >(e) implies spec_props_from(*v, 0) == Err::<
                            Seq<(Seq<char>, Seq<TokenView>)>,
                            ParseError,
                        >(e) by {
                            assert(spec_props_from(*v, p as int) == Err::<
                                Seq<(Seq<char>, Seq<TokenView>)>,
                                ParseError,
                            >(e));
                        }
                    }
                    p = k + 1;
                } else {
                    return Err(ParseError::ExpectedComma);
                }
            },
        }
    }
    assert(spec_props_from(*v, p as int) == Ok::<Seq<(Seq<char>, Seq<TokenView>)>, ParseError>(
        Seq::empty(),
    ));
    assert(props_view(list@) + Seq::<(Seq<char>, Seq<TokenView>)>::empty() =~= props_view(list@));
    Ok(list)
}

/// A component used in a view: its name and the properties it is given.
pub struct Component {
    pub name: String,
    pub props: Vec<Prop>,
}

/// An element: its tag name, its attributes and its children.
pub struct Element {
    pub tag_name: String,
    pub attributes: Vec<Attribute>,
    pub children: Children,
}

/// The children of an element: items, or a store whose value the element shows.
pub enum Children {
    Children(Vec<Item>),
    ReactiveStore(Expr),
}

/// One item of a view: a component (`@Name(props)`), an element, or an expression
/// between braces.
pub enum Item {
    Component(Component),
    Element(Element),
    Expression(Expr),
}

/// An item of a view, as a mathematical value.
pub enum ItemView {
    Component(Seq<char>, Seq<(Seq<char>, Seq<TokenView>)>),
    Element(Seq<char>, Seq<(Seq<char>, ValueView)>, ChildrenView),
    Expression(Seq<TokenView>),
}

/// The children of an element, as a mathematical value.
pub enum ChildrenView {
    Items(Seq<ItemView>),
    ReactiveStore(Seq<TokenView>),
}

/// The value of an item.
pub open spec fn item_view(i: Item) -> ItemView
    decreases i, 0int,
{
    match i {
        Item::Component(c) => ItemView::Component(c.name@, props_view(c.props@)),
        Item::Element(e) => {
            proof {
                assert(decreases_to!(i => e));
                assert(decreases_to!(e => e.children));
            }
            ItemView::Element(e.tag_name@, attributes_view(e.attributes@), children_view(e.children))
        },
        Item::Expression(x) => ItemView::Expression(x@),
    }
}

/// The value of the children of an element.
pub open spec fn children_view(c: Children) -> ChildrenView
    decreases c, 0int,
{
    match c {
        Children::Children(items) => {
            proof {
                assert(decreases_to!(c => items));
            }
            ChildrenView::Items(items_view(items, items@.len() as int))
        },
        Children::ReactiveStore(x) => ChildrenView::ReactiveStore(x@),
    }
}

/// The values of the first `n` items of `v`.
pub open spec fn items_view(v: Vec<Item>, n: int) -> Seq<ItemView>
    decreases v, n,
{
    if n <= 0 || n > v@.len() {
        Seq::empty()
    } else {
        proof {
            assert(decreases_to!(v => v@));
            assert(decreases_to!(v@ => v@[n - 1]));
        }
        items_view(v, n - 1).push(item_view(v@[n - 1]))
    }
}

/// Items that are the same give the same values.
proof fn lemma_items_view_same(a: Vec<Item>, b: Vec<Item>, n: int)
    requires
        0 <= n <= a@.len(),
        n <= b@.len(),
        forall|i: int| 0 <= i < n ==> a@[i] == b@[i],
    ensures
        items_view(a, n) == items_view(b, n),
    decreases n,
{
    if n > 0 {
        lemma_items_view_same(a, b, n - 1);
    }
}

/// Whether token `i` is a group within the delimiter `d`.
pub open spec fn is_group_at(tokens: Seq<TokenTree>, i: int, d: Delimiter) -> bool {
    &&& 0 <= i < tokens.len()
    &&& tokens[i] matches TokenTree::Group(e, _) && e == d
}

/// A component read from token `p` on (after its `@`): its name, then its
/// properties when a parenthesized list follows; with the position after it.
pub open spec fn spec_component(v: Vec<TokenTree>, p: int) -> Result<(ItemView, int), ParseError> {
    if !is_ident_at(v@, p) {
        Err(ParseError::ExpectedIdent)
    } else if is_group_at(v@, p + 1, Delimiter::Parenthesis) {
        match spec_props_from(v@[p + 1]->Group_1, 0) {
            Ok(props) => Ok((ItemView::Component(v@[p]->Ident_0@, props), p + 2)),
            Err(e) => Err(e),
        }
    } else {
        Ok((ItemView::Component(v@[p]->Ident_0@, Seq::empty()), p + 1))
    }
}

/// The items read from token `p` on, up to the end of the tokens.
pub open spec fn spec_items_from(v: Vec<TokenTree>, p: int) -> Result<Seq<ItemView>, ParseError>
    decreases v, v@.len() - p, 2int,
{
    if p < 0 || p >= v@.len() {
        Ok(Seq::empty())
    } else {
        match spec_item(v, p) {
            Err(e) => Err(e),
            Ok((item, k)) => if p < k <= v@.len() {
                match spec_items_from(v, k) {
                    Ok(rest) => Ok(seq![item] + rest),
                    Err(e) => Err(e),
                }
            } else {
                Err(ParseError::InvalidToken)
            },
        }
    }
}

/// An item read from token `p` on, with the position after it: an expression
/// between braces, a component after `@`, or an element.
pub open spec fn spec_item(v: Vec<TokenTree>, p: int) -> Result<(ItemView, int), ParseError>
    decreases v, v@.len() - p, 1int,
{
    if is_group_at(v@, p, Delimiter::Brace) {
        let inner = v@[p]->Group_1;
        if is_expr(inner, 0, inner@.len() as int) {
            Ok((ItemView::Expression(range_view(inner, 0, inner@.len() as int)), p + 1))
        } else {
            Err(ParseError::ExpectedExpression)
        }
    } else if is_punct_at(v@, p, '@') {
        spec_component(v, p + 1)
    } else if is_ident_at(v@, p) {
        spec_element(v, p)
    } else {
        Err(ParseError::InvalidToken)
    }
}

/// An element read from token `p` on, with the position after it: its tag name,
/// its attributes when a parenthesized list follows, and its children between
/// braces.
pub open spec fn spec_element(v: Vec<TokenTree>, p: int) -> Result<(ItemView, int), ParseError>
    decreases v, v@.len() - p, 0int,
{
    if !is_ident_at(v@, p) {
        Err(ParseError::ExpectedIdent)
    } else {
        let has_list = is_group_at(v@, p + 1, Delimiter::Parenthesis);
        let attributes = if has_list {
            spec_attributes_from(v@[p + 1]->Group_1, 0)
        } else {
            Ok(Seq::empty())
        };
        let q = if has_list {
            p + 2
        } else {
            p + 1
        };
        match attributes {
            Err(e) => Err(e),
            Ok(list) => if is_group_at(v@, q, Delimiter::Brace) {
                let inner = v@[q]->Group_1;
                proof {
                    assert(decreases_to!(v => v@));
                    assert(decreases_to!(v@ => v@[q]));
                    assert(decreases_to!(v@[q] => inner));
                }
                match spec_children(inner) {
                    Ok(c) => Ok((ItemView::Element(v@[p]->Ident_0@, list, c), q + 1)),
                    Err(e) => Err(e),
                }
            } else {
                Err(ParseError::ExpectedBraces)
            },
        }
    }
}

/// The children of an element, read from the tokens between its braces: `$` and an
/// expression for a store, items otherwise.
pub open spec fn spec_children(c: Vec<TokenTree>) -> Result<ChildrenView, ParseError>
    decreases c, c@.len() + 1, 0int,
{
    if is_punct_at(c@, 0, '$') {
        if is_expr(c, 1, c@.len() as int) {
            Ok(ChildrenView::ReactiveStore(range_view(c, 1, c@.len() as int)))
        } else {
            Err(ParseError::ExpectedExpression)
        }
    } else {
        match spec_items_from(c, 0) {
            Ok(items) => Ok(ChildrenView::Items(items)),
            Err(e) => Err(e),
        }
    }
}

impl Component {
    /// Reads a component from token `p` on (after its `@`), as `spec_component` says.
    pub fn parse(v: &Vec<TokenTree>, p: usize) -> (r: Result<(Component, usize), ParseError>)
        requires
            p <= v@.len(),
        ensures
            match r {
                Ok((c, e)) => spec_component(*v, p as int) == Ok::<(ItemView, int), ParseError>(
                    (item_view(Item::Component(c)), e as int),
                ),
                Err(err) => spec_component(*v, p as int) == Err::<(ItemView, int), ParseError>(err),
            },
    {
        let n = v.len();
        if !peek_ident(v, p) {
            return Err(ParseError::ExpectedIdent);
        }
        let name = match &v[p] {
            TokenTree::Ident(name) => name.clone(),
            _ => String::new(),
        };
        if p + 1 < v.len() {
            if let TokenTree::Group(Delimiter::Parenthesis, inner) = &v[p + 1] {
                return match parse_props(inner) {
                    Ok(props) => Ok((Component { name, props }, p + 2)),
                    Err(e) => Err(e),
                };
            }
        }
        let props: Vec<Prop> = Vec::new();
        assert(props_view(props@) =~= Seq::<(Seq<char>, Seq<TokenView>)>::empty());
        Ok((Component { name, props }, p + 1))
    }
}

/// Reads the items from token `p` on, up to the end, as `spec_items_from` says.
fn parse_items_from(v: &Vec<TokenTree>, p: usize) -> (r: Result<Vec<Item>, ParseError>)
    requires
        p <= v@.len(),
    ensures
        match r {
            Ok(items) => spec_items_from(*v, p as int) == Ok::<Seq<ItemView>, ParseError>(
                items_view(items, items@.len() as int),
            ),
            Err(err) => spec_items_from(*v, p as int) == Err::<Seq<ItemView>, ParseError>(err),
        },
    decreases v, v@.len() - p, 2int,
{
    let mut items: Vec<Item> = Vec::new();
    let mut i = p;
    while i < v.len()
        invariant
            p <= i <= v@.len(),
            forall|s: Seq<ItemView>| #[trigger]
                spec_items_from(*v, i as int) == Ok::<Seq<ItemView>, ParseError>(s)
                    ==> spec_items_from(*v, p as int) == Ok::<Seq<ItemView>, ParseError>(
                    items_view(items, items@.len() as int) + s,
                ),
            forall|e: ParseError| #[trigger]
                spec_items_from(*v, i as int) == Err::<Seq<ItemView>, ParseError>(e)
                    ==> spec_items_from(*v, p as int) == Err::<Seq<ItemView>, ParseError>(e),
        decreases v@.len() - i,
    {
        match Item::parse(v, i) {
            Err(err) => {
                return Err(err);
            },
            Ok((item, k)) => {
                if !(i < k && k <= v.len()) {
                    return Err(ParseError::InvalidToken);
                }
                let ghost before = items;
                let ghost one = item_view(item);
                items.push(item);
                proof {
                    lemma_items_view_same(items, before, before@.len() as int);
                    assert(items_view(items, items@.len() as int) =~= items_view(
                        before,
                        before@.len() as int,
                    ) + seq![one]);
                    assert forall|s: Seq<ItemView>| #[trigger]
                        spec_items_from(*v, k as int) == Ok::<Seq<ItemView>, ParseError>(
                            s,
                        ) implies spec_items_from(*v, p as int) == Ok::<Seq<ItemView>, ParseError>(
                        items_view(items, items@.len() as int) + s,
                    ) by {
                        assert(spec_items_from(*v, i as int) == Ok::<Seq<ItemView>, ParseError>(
                            seq![one] + s,
                        ));
                        assert(items_view(before, before@.len() as int) + (seq![one] + s)
                            =~= items_view(items, items@.len() as int) + s);
                    }
                    assert forall|e: ParseError| #[trigger]
                        spec_items_from(*v, k as int) == Err::<Seq<ItemView>, ParseError>(
                            e,
                        ) implies spec_items_from(*v, p as int) == Err::<Seq<ItemView>, ParseError>(
                        e,
                    ) by {
                        assert(spec_items_from(*v, i as int) == Err::<Seq<ItemView>, ParseError>(
                            e,
                        ));
                    }
                }
                i = k;
            },
        }
    }
    assert(spec_items_from(*v, i as int) == Ok::<Seq<ItemView>, ParseError>(Seq::empty()));
    assert(items_view(items, items@.len() as int) + Seq::<ItemView>::empty() =~= items_view(
        items,
        items@.len() as int,
    ));
    Ok(items)
}

impl Item {
    /// Reads an item from token `p` on, as `spec_item` says.
    pub fn parse(v: &Vec<TokenTree>, p: usize) -> (r: Result<(Item, usize), ParseError>)
        requires
            p <= v@.len(),
        ensures
            match r {
                Ok((item, e)) => spec_item(*v, p as int) == Ok::<(ItemView, int), ParseError>(
                    (item_view(item), e as int),
                ),
                Err(err) => spec_item(*v, p as int) == Err::<(ItemView, int), ParseError>(err),
            },
        decreases v, v@.len() - p, 1int,
    {
        let n = v.len();
        if p == n {
            return Err(ParseError::InvalidToken);
        }
        if let TokenTree::Group(Delimiter::Brace, inner) = &v[p] {
            let text = range_string(inner, 0, inner.len());
            if reads_as_expr(text.as_str()) {
                let e = range_expr(inner, 0, inner.len());
                return Ok((Item::Expression(e), p + 1));
            } else {
                return Err(ParseError::ExpectedExpression);
            }
        }
        if peek_punct(v, p, '@') {
            return match Component::parse(v, p + 1) {
                Ok((c, e)) => Ok((Item::Component(c), e)),
                Err(err) => Err(err),
            };
        }
        if peek_ident(v, p) {
            return match Element::parse(v, p) {
                Ok((element, e)) => Ok((Item::Element(element), e)),
                Err(err) => Err(err),
            };
        }
        Err(ParseError::InvalidToken)
    }
}

impl Element {
    /// Reads an element from token `p` on, as `spec_element` says.
    pub fn parse(v: &Vec<TokenTree>, p: usize) -> (r: Result<(Element, usize), ParseError>)
        requires
            p <= v@.len(),
        ensures
            match r {
                Ok((element, e)) => spec_element(*v, p as int) == Ok::<(ItemView, int), ParseError>(
                    (item_view(Item::Element(element)), e as int),
                ),
                Err(err) => spec_element(*v, p as int) == Err::<(ItemView, int), ParseError>(err),
            },
        decreases v, v@.len() - p, 0int,
    {
        let n = v.len();
        if !peek_ident(v, p) {
            return Err(ParseError::ExpectedIdent);
        }
        let tag_name = match &v[p] {
            TokenTree::Ident(name) => name.clone(),
            _ => String::new(),
        };
        let mut q = p + 1;
        let mut attributes: Vec<Attribute> = Vec::new();
        if p + 1 < v.len() {
            if let TokenTree::Group(Delimiter::Parenthesis, inner) = &v[p + 1] {
                match parse_attributes(inner) {
                    Ok(list) => {
                        attributes = list;
                    },
                    Err(e) => {
                        return Err(e);
                    },
                }
                q = p + 2;
            }
        }
        assert(attributes_view(attributes@) == if is_group_at(v@, p + 1, Delimiter::Parenthesis) {
            spec_attributes_from(v@[p + 1]->Group_1, 0)->Ok_0
        } else {
            Seq::empty()
        });
        if q < v.len() {
            if let TokenTree::Group(Delimiter::Brace, inner) = &v[q] {
                proof {
                    assert(decreases_to!(v => v@));
                    assert(decreases_to!(v@ => v@[q as int]));
                    assert(decreases_to!(v@[q as int] => *inner));
                }
                return match Children::parse(inner) {
                    Ok(children) => Ok((Element { tag_name, attributes, children }, q + 1)),
                    Err(e) => Err(e),
                };
            }
        }
        Err(ParseError::ExpectedBraces)
    }
}

impl Children {
    /// Reads the children of an element from the tokens between its braces, as
    /// `spec_children` says.
    pub fn parse(c: &Vec<TokenTree>) -> (r: Result<Children, ParseError>)
        ensures
            match r {
                Ok(children) => spec_children(*c) == Ok::<ChildrenView, ParseError>(
                    children_view(children),
                ),
                Err(err) => spec_children(*c) == Err::<ChildrenView, ParseError>(err),
            },
        decreases c, c@.len() + 1, 0int,
    {
        if peek_punct(c, 0, '$') {
            let text = range_string(c, 1, c.len());
            if reads_as_expr(text.as_str()) {
                return Ok(Children::ReactiveStore(range_expr(c, 1, c.len())));
            } else {
                return Err(ParseError::ExpectedExpression);
            }
        }
        match parse_items_from(c, 0) {
            Ok(items) => Ok(Children::Children(items)),
            Err(e) => Err(e),
        }
    }
}

} // verus!
