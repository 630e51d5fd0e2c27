//! Reading the view grammar of the view macro from tokens: the attribute list of
//! an element, its children (items, a store, or a loop), components and their
//! properties, conditional items and the view itself. The Rust expressions, types
//! and patterns within are read by `syn`.

use vstd::prelude::*;
use crate::html::parse::{
    expr_end, expr_end_from, is_expr, is_group_at, lemma_expr_end_bounds, range_expr,
    range_string, range_text, range_view, reads_as_expr, ValueView,
};
use crate::tokens::{is_ident_at, is_punct_at, peek_ident, peek_punct, Delimiter, Expr, TokenTree, TokenView};
use crate::view::parse::element::attributes::{
    spec_add_attributes, spec_insert_reactive, spec_insert_static, Attribute, Attributes,
    AttributesView, DuplicateAttribute, Value,
};
use crate::view::parse::html_ident::{
    lemma_html_ident_end, parse_html_ident, spec_html_ident, HtmlIdent,
};
use crate::view::parse::component::Props;
use crate::view::parse::element::children::ReactiveStore;
use crate::text::str_eq;

verus! {

/// A piece of the view grammar could not be read.
#[derive(Clone, Copy, Debug, PartialEq, Eq, Structural)]
pub struct SyntaxError;

/// The value of an attribute value.
pub open spec fn qvalue_view(v: Value) -> ValueView {
    match v {
        Value::Reactive(e) => ValueView::Reactive(e@),
        Value::Static(e) => ValueView::Static(e@),
    }
}

/// The keys and values of a list of attributes.
pub open spec fn qattributes_view(s: Seq<Attribute>) -> Seq<(Seq<char>, ValueView)> {
    s.map_values(|a: Attribute| (a.key.0@, qvalue_view(a.value)))
}

/// An attribute value read from token `a` on, with the position after it: `$` and
/// an expression for a store, an expression otherwise.
pub open spec fn spec_qvalue(v: Vec<TokenTree>, a: int) -> Option<(ValueView, int)> {
    if is_punct_at(v@, a, '$') {
        match expr_end_from(v, a + 1, v@.len() as int) {
            Some(e) => Some((ValueView::Reactive(range_view(v, a + 1, e)), e)),
            None => None,
        }
    } else {
        match expr_end_from(v, a, v@.len() as int) {
            Some(e) => Some((ValueView::Static(range_view(v, a, e)), e)),
            None => None,
        }
    }
}

/// An attribute `key = value` read from token `a` on, the key an HTML identifier or
/// a string literal, with the position after it.
pub open spec fn spec_qattribute(v: Vec<TokenTree>, a: int) -> Option<
    ((Seq<char>, ValueView), int),
> {
    match spec_html_ident(v@, a, true) {
        Err(_) => None,
        Ok((key, k)) => if is_punct_at(v@, k, '=') {
            match spec_qvalue(v, k + 1) {
                Some((value, e)) => Some(((key, value), e)),
                None => None,
            }
        } else {
            None
        },
    }
}

/// An attribute read from token `a` on ends after `a`, within the tokens.
pub proof fn lemma_qattribute_end(v: Vec<TokenTree>, a: int)
    requires
        0 <= a <= v@.len(),
    ensures
        spec_qattribute(v, a) matches Some((_, e)) ==> a < e <= v@.len(),
{
    lemma_html_ident_end(v@, a, true);
    if let Ok((_, k)) = spec_html_ident(v@, a, true) {
        lemma_expr_end_bounds(v, k + 1, v@.len() as int);
        lemma_expr_end_bounds(v, k + 2, v@.len() as int);
    }
}

/// The attributes of a parenthesized list read from token `p` on: attributes
/// separated by commas, a last comma allowed.
pub open spec fn spec_qattributes_from(v: Vec<TokenTree>, p: int) -> Option<
    Seq<(Seq<char>, ValueView)>,
>
    decreases v@.len() - p,
{
    if p < 0 || p >= v@.len() {
        Some(Seq::empty())
    } else {
        match spec_qattribute(v, p) {
            None => None,
            Some((attribute, k)) => if k >= v@.len() {
                Some(seq![attribute])
            } else if is_punct_at(v@, k, ',') {
                proof {
                    lemma_qattribute_end(v, p);
                }
                match spec_qattributes_from(v, k + 1) {
                    Some(rest) => Some(seq![attribute] + rest),
                    None => None,
                }
            } else {
                None
            },
        }
    }
}

/// No attributes, for the element with the given id.
pub open spec fn no_attributes(id: u64) -> AttributesView {
    AttributesView {
        attributes: Map::empty(),
        is_root: false,
        element_needs_id: false,
        reactive_attributes: Map::empty(),
        events: Map::empty(),
        reactive_classes: Seq::empty(),
        id,
    }
}

/// Adding one attribute, by its key and value: the new attributes, or `Err` when
/// its key was already taken.
pub open spec fn add_attribute_view(a: AttributesView, key: Seq<char>, value: ValueView) -> Result<
    AttributesView,
    DuplicateAttribute,
> {
    let (next, previous) = match value {
        ValueView::Static(e) => spec_insert_static(a, key, e),
        ValueView::Reactive(e) => spec_insert_reactive(a, key, e),
    };
    if previous is Some {
        Err(DuplicateAttribute)
    } else {
        Ok(next)
    }
}

/// Adding the attributes `list` in order, from `a` on.
pub open spec fn add_attributes_view(a: AttributesView, list: Seq<(Seq<char>, ValueView)>) -> Result<
    AttributesView,
    DuplicateAttribute,
>
    decreases list.len(),
{
    if list.len() == 0 {
        Ok(a)
    } else {
        match add_attributes_view(a, list.drop_last()) {
            Ok(b) => add_attribute_view(b, list.last().0, list.last().1),
            Err(e) => Err(e),
        }
    }
}

/// Adding attributes goes by their keys and values alone.
pub proof fn lemma_add_attributes_view(a: AttributesView, list: Seq<Attribute>)
    ensures
        spec_add_attributes(a, list) == add_attributes_view(a, qattributes_view(list)),
    decreases list.len(),
{
    if list.len() > 0 {
        assert(qattributes_view(list.drop_last()) =~= qattributes_view(list).drop_last());
        lemma_add_attributes_view(a, list.drop_last());
    }
}

/// The attributes of an element read from token `p` on, for the element with the
/// given id: a parenthesized list when one stands there, none otherwise; with the
/// position after them. `None` when the list cannot be read or holds a key twice.
pub open spec fn spec_element_attributes(v: Vec<TokenTree>, p: int, id: u64) -> Option<
    (AttributesView, int),
> {
    if is_group_at(v@, p, Delimiter::Parenthesis) {
        match spec_qattributes_from(v@[p]->Group_1, 0) {
            Some(list) => match add_attributes_view(no_attributes(id), list) {
                Ok(a) => Some((a, p + 1)),
                Err(_) => None,
            },
            None => None,
        }
    } else {
        Some((no_attributes(id), p))
    }
}

/// Reads an attribute value from token `a` on, as `spec_qvalue` says.
fn parse_qvalue(v: &Vec<TokenTree>, a: usize) -> (r: Option<(Value, usize)>)
    requires
        a <= v@.len(),
    ensures
        match r {
            Some((value, e)) => spec_qvalue(*v, a as int) == Some((qvalue_view(value), e as int)),
            None => spec_qvalue(*v, a as int) is None,
        },
{
    let n = v.len();
    if peek_punct(v, a, '$') {
        proof {
            lemma_expr_end_bounds(*v, a + 1, v@.len() as int);
        }
        match expr_end(v, a + 1) {
            Some(e) => Some((Value::Reactive(range_expr(v, a + 1, e)), e)),
            None => None,
        }
    } else {
        proof {
            lemma_expr_end_bounds(*v, a as int, v@.len() as int);
        }
        match expr_end(v, a) {
            Some(e) => Some((Value::Static(range_expr(v, a, e)), e)),
            None => None,
        }
    }
}

/// Reads an attribute from token `a` on, as `spec_qattribute` says.
fn parse_qattribute(v: &Vec<TokenTree>, a: usize) -> (r: Option<(Attribute, usize)>)
    requires
        a <= v@.len(),
    ensures
        match r {
            Some((attribute, e)) => spec_qattribute(*v, a as int) == Some(
                ((attribute.key.0@, qvalue_view(attribute.value)), e as int),
            ),
            None => spec_qattribute(*v, a as int) is None,
        },
{
    let n = v.len();
    proof {
        lemma_html_ident_end(v@, a as int, true);
    }
    match parse_html_ident(v, a, true) {
        Err(_) => None,
        Ok((key, k)) => {
            if peek_punct(v, k, '=') {
                match parse_qvalue(v, k + 1) {
                    Some((value, e)) => Some((Attribute { key: HtmlIdent(key), value }, e)),
                    None => None,
                }
            } else {
                None
            }
        },
    }
}

/// Reads the attributes of a parenthesized list, as `spec_qattributes_from` says
/// from its first token on.
fn parse_qattributes(v: &Vec<TokenTree>) -> (r: Option<Vec<Attribute>>)
    ensures
        match r {
            Some(list) => spec_qattributes_from(*v, 0) == Some(qattributes_view(list@)),
            None => spec_qattributes_from(*v, 0) is None,
        },
{
    let mut list: Vec<Attribute> = Vec::new();
    let mut p: usize = 0;
    while p < v.len()
        invariant
            p <= v@.len(),
            forall|s: Seq<(Seq<char>, ValueView)>| #[trigger]
                spec_qattributes_from(*v, p as int) == Some(s) ==> spec_qattributes_from(*v, 0)
                    == Some(qattributes_view(list@) + s),
            spec_qattributes_from(*v, p as int) is None ==> spec_qattributes_from(*v, 0) is None,
        decreases v@.len() - p,
    {
        proof {
            lemma_qattribute_end(*v, p as int);
        }
        match parse_qattribute(v, p) {
            None => {
                return None;
            },
            Some((attribute, k)) => {
                let ghost before = list@;
                let ghost one = (attribute.key.0@, qvalue_view(attribute.value));
                list.push(attribute);
                assert(qattributes_view(list@) =~= qattributes_view(before) + seq![one]);
                if k >= v.len() {
                    assert(spec_qattributes_from(*v, p as int) == Some(seq![one]));
                    assert(qattributes_view(before) + seq![one] =~= qattributes_view(list@)
                        + Seq::<(Seq<char>, ValueView)>::empty());
                    p = k;
                } else if peek_punct(v, k, ',') {
                    proof {
                        assert forall|s: Seq<(Seq<char>, ValueView)>| #[trigger]
                            spec_qattributes_from(*v, k + 1) == Some(
                                s,
                            ) implies spec_qattributes_from(*v, 0) == Some(
                            qattributes_view(list@) + s,
                        ) by {
                            assert(spec_qattributes_from(*v, p as int) == Some(seq![one] + s));
                            assert(qattributes_view(before) + (seq![one] + s) =~= qattributes_view(
                                list@,
                            ) + s);
                        }
                    }
                    p = k + 1;
                } else {
                    return None;
                }
            },
        }
    }
    assert(spec_qattributes_from(*v, p as int) == Some(Seq::<(Seq<char>, ValueView)>::empty()));
    assert(qattributes_view(list@) + Seq::<(Seq<char>, ValueView)>::empty() =~= qattributes_view(
        list@,
    ));
    Some(list)
}

impl Attributes {
    /// Reads the attributes of an element from token `pos` on, for the element with
    /// the given id, as `spec_element_attributes` says.
    pub fn parse(tokens: &Vec<TokenTree>, pos: usize, id: u64) -> (r: Result<
        (Attributes, usize),
        SyntaxError,
    >)
        requires
            pos <= tokens@.len(),
        ensures
            r matches Ok((a, end)) ==> a.wf() && spec_element_attributes(*tokens, pos as int, id)
                == Some((a@, end as int)),
            r is Err <==> spec_element_attributes(*tokens, pos as int, id) is None,
    {
        let mut list: Vec<Attribute> = Vec::new();
        let mut end = pos;
        if pos < tokens.len() {
            if let TokenTree::Group(Delimiter::Parenthesis, inner) = &tokens[pos] {
                match parse_qattributes(inner) {
                    Some(l) => {
                        list = l;
                    },
                    None => {
                        return Err(SyntaxError);
                    },
                }
                end = pos + 1;
            }
        }
        assert(qattributes_view(list@) == if is_group_at(tokens@, pos as int, Delimiter::Parenthesis) {
            spec_qattributes_from(tokens@[pos as int]->Group_1, 0)->Some_0
        } else {
            Seq::empty()
        }) by {
            if !is_group_at(tokens@, pos as int, Delimiter::Parenthesis) {
                assert(qattributes_view(list@) =~= Seq::<(Seq<char>, ValueView)>::empty());
            }
        }
        proof {
            lemma_add_attributes_view(no_attributes(id), list@);
            assert(add_attributes_view(no_attributes(id), Seq::empty()) == Ok::<
                AttributesView,
                DuplicateAttribute,
            >(no_attributes(id)));
        }
        match Attributes::from_attributes(list, id) {
            Ok(a) => Ok((a, end)),
            Err(_) => Err(SyntaxError),
        }
    }
}

/// The id after `id`, as a wrapping counter gives it.
pub open spec fn next_id(id: u64) -> u64 {
    if id == u64::MAX {
        0
    } else {
        (id + 1) as u64
    }
}

/// The id after `id`, as `next_id` says.
pub(crate) fn bump(id: u64) -> (r: u64)
    ensures
        r == next_id(id),
{
    if id == u64::MAX {
        0
    } else {
        id + 1
    }
}

/// Whether token `i` is the identifier `word` (a keyword such as `for` or `in`).
pub open spec fn is_word_at(tokens: Seq<TokenTree>, i: int, word: Seq<char>) -> bool {
    &&& 0 <= i < tokens.len()
    &&& tokens[i] matches TokenTree::Ident(name) && name@ == word
}

/// Whether token `i` is the identifier `word`, as `is_word_at` says.
fn peek_word(tokens: &Vec<TokenTree>, i: usize, word: &str) -> (r: bool)
    ensures
        r == is_word_at(tokens@, i as int, word@),
{
    if i < tokens.len() {
        match &tokens[i] {
            TokenTree::Ident(name) => str_eq(name.as_str(), word),
            _ => false,
        }
    } else {
        false
    }
}

/// Whether `syn` reads the whole of `text` as one Rust type.
pub uninterp spec fn syn_type_text(text: Seq<char>) -> bool;

/// Whether `syn` reads the whole of `text` as one Rust pattern (a single pattern,
/// without a leading `|`).
pub uninterp spec fn syn_pat_text(text: Seq<char>) -> bool;

/// `syn::parse_str::<syn::Type>`: whether `syn` reads the whole of `text` as one
/// Rust type. The type grammar is not restated.
#[verifier::external_body]
fn reads_as_type(text: &str) -> (r: bool)
    ensures
        r == syn_type_text(text@),
{
    syn::parse_str::<syn::Type>(text).is_ok()
}

/// `syn::Pat::parse_single` run on `text` by `Parser::parse_str`: whether `syn`
/// reads the whole of `text` as one pattern. The pattern grammar is not restated.
#[verifier::external_body]
fn reads_as_pattern(text: &str) -> (r: bool)
    ensures
        r == syn_pat_text(text@),
{
    syn::parse::Parser::parse_str(syn::Pat::parse_single, text).is_ok()
}

/// Where a type that starts at token `a` ends, looking no further than token `p`:
/// after the longest run of tokens from `a` that reads as one type.
pub open spec fn type_end_from(v: Vec<TokenTree>, a: int, p: int) -> Option<int>
    decreases p - a,
{
    if p <= a {
        None
    } else if syn_type_text(range_text(v, a, p)) {
        Some(p)
    } else {
        type_end_from(v, a, p - 1)
    }
}

/// Where the pattern of a loop that starts at token `a` ends, looking from token
/// `q` on: at the first `in` before which the tokens from `a` read as a pattern.
pub open spec fn pattern_end_from(v: Vec<TokenTree>, a: int, q: int) -> Option<int>
    decreases v@.len() - q,
{
    if q < 0 || q >= v@.len() {
        None
    } else if is_word_at(v@, q, "in"@) && syn_pat_text(range_text(v, a, q)) {
        Some(q)
    } else {
        pattern_end_from(v, a, q + 1)
    }
}

/// Where an expression that starts at token `a` and is followed by a block ends,
/// looking from token `q` on: at the first group between braces before which the
/// tokens from `a` read as one expression.
pub open spec fn block_expr_end_from(v: Vec<TokenTree>, a: int, q: int) -> Option<int>
    decreases v@.len() - q,
{
    if q < 0 || q >= v@.len() {
        None
    } else if is_group_at(v@, q, Delimiter::Brace) && is_expr(v, a, q) {
        Some(q)
    } else {
        block_expr_end_from(v, a, q + 1)
    }
}

/// The end of a type lies after its start and no further than where the search
/// starts.
pub proof fn lemma_type_end_bounds(v: Vec<TokenTree>, a: int, p: int)
    ensures
        type_end_from(v, a, p) matches Some(e) ==> a < e <= p,
    decreases p - a,
{
    if p > a {
        lemma_type_end_bounds(v, a, p - 1);
    }
}

/// The end of a pattern is an `in` at or after where the search starts.
pub proof fn lemma_pattern_end_bounds(v: Vec<TokenTree>, a: int, q: int)
    ensures
        pattern_end_from(v, a, q) matches Some(e) ==> q <= e < v@.len() && is_word_at(
            v@,
            e,
            "in"@,
        ),
    decreases v@.len() - q,
{
    if 0 <= q < v@.len() {
        lemma_pattern_end_bounds(v, a, q + 1);
    }
}

/// The end of an expression before a block is a group between braces at or after
/// where the search starts.
pub proof fn lemma_block_expr_end_bounds(v: Vec<TokenTree>, a: int, q: int)
    ensures
        block_expr_end_from(v, a, q) matches Some(e) ==> q <= e < v@.len() && is_group_at(
            v@,
            e,
            Delimiter::Brace,
        ),
    decreases v@.len() - q,
{
    if 0 <= q < v@.len() {
        lemma_block_expr_end_bounds(v, a, q + 1);
    }
}

/// A component as a mathematical value: its type, its properties and its binding.
pub struct ComponentView {
    pub name: Seq<TokenView>,
    pub props: Seq<TokenView>,
    pub binding: Option<Seq<char>>,
}

/// An item of a view, as a mathematical value.
pub enum QItemView {
    Component(ComponentView),
    Element(QElementView),
    Expression(Seq<TokenView>),
}

/// An element, as a mathematical value.
pub struct QElementView {
    pub tag_name: Seq<char>,
    pub attributes: AttributesView,
    pub children: QChildrenView,
}

/// The children of an element, as a mathematical value.
pub enum QChildrenView {
    Items(Seq<QItemView>),
    ReactiveStore(Seq<TokenView>),
    ForLoop(ForLoopView),
}

/// A loop over the items of an iterable, as a mathematical value.
pub struct ForLoopView {
    pub pattern: Seq<TokenView>,
    pub reactive: bool,
    pub iterable: Seq<TokenView>,
    pub item: Box<QItemView>,
    pub id: u64,
}

/// The tokens of `()`.
pub open spec fn unit_tokens() -> Seq<TokenView> {
    seq![TokenView::Group(Delimiter::Parenthesis, Seq::empty())]
}

/// A component read from token `p` on (after its `@`): its type, its properties
/// between parentheses (`()` when there are none), and `: binding` when one
/// follows; with the position after it.
pub open spec fn spec_qcomponent(v: Vec<TokenTree>, p: int) -> Option<(ComponentView, int)> {
    match type_end_from(v, p, v@.len() as int) {
        None => None,
        Some(e) => {
            let has_props = is_group_at(v@, e, Delimiter::Parenthesis);
            let props_ok = !has_props || is_expr(
                v@[e]->Group_1,
                0,
                v@[e]->Group_1@.len() as int,
            );
            let props = if has_props {
                range_view(v@[e]->Group_1, 0, v@[e]->Group_1@.len() as int)
            } else {
                unit_tokens()
            };
            let q = if has_props {
                e + 1
            } else {
                e
            };
            if !props_ok {
                None
            } else if is_punct_at(v@, q, ':') {
                if is_ident_at(v@, q + 1) {
                    Some(
                        (
                            ComponentView {
                                name: range_view(v, p, e),
                                props,
                                binding: Some(v@[q + 1]->Ident_0@),
                            },
                            q + 2,
                        ),
                    )
                } else {
                    None
                }
            } else {
                Some((ComponentView { name: range_view(v, p, e), props, binding: None }, q))
            }
        },
    }
}

/// The items read from token `p` on, up to the end of the tokens, the first given
/// the id `id`; with the id after the last one used.
pub open spec fn spec_qitems_from(v: Vec<TokenTree>, p: int, id: u64) -> Option<
    (Seq<QItemView>, u64),
>
    decreases v, v@.len() - p, 2int,
{
    if p < 0 || p >= v@.len() {
        Some((Seq::empty(), id))
    } else {
        match spec_qitem(v, p, id) {
            None => None,
            Some((item, k, id2)) => if p < k <= v@.len() {
                match spec_qitems_from(v, k, id2) {
                    Some((rest, id3)) => Some((seq![item] + rest, id3)),
                    None => None,
                }
            } else {
                None
            },
        }
    }
}

/// An item read from token `p` on, with the position after it and the next free
/// id: an expression between braces, a component after `@`, or an element.
pub open spec fn spec_qitem(v: Vec<TokenTree>, p: int, id: u64) -> Option<(QItemView, int, u64)>
    decreases v, v@.len() - p, 1int,
{
    if is_group_at(v@, p, Delimiter::Brace) {
        let inner = v@[p]->Group_1;
        if is_expr(inner, 0, inner@.len() as int) {
            Some((QItemView::Expression(range_view(inner, 0, inner@.len() as int)), p + 1, id))
        } else {
            None
        }
    } else if is_punct_at(v@, p, '@') {
        match spec_qcomponent(v, p + 1) {
            Some((c, e)) => Some((QItemView::Component(c), e, id)),
            None => None,
        }
    } else {
        match spec_qelement(v, p, id) {
            Some((e, k, id2)) => Some((QItemView::Element(e), k, id2)),
            None => None,
        }
    }
}

/// An element read from token `p` on, its attributes given the id `id`: its tag
/// name (an HTML identifier or a string literal), its attributes, and its children
/// between braces; with the position after it and the next free id.
pub open spec fn spec_qelement(v: Vec<TokenTree>, p: int, id: u64) -> Option<
    (QElementView, int, u64),
>
    decreases v, v@.len() - p, 0int,
{
    match spec_html_ident(v@, p, true) {
        Err(_) => None,
        Ok((tag, k)) => match spec_element_attributes(v, k, id) {
            None => None,
            Some((attributes, q)) => if is_group_at(v@, q, Delimiter::Brace) {
                let inner = v@[q]->Group_1;
                proof {
                    assert(decreases_to!(v => v@));
                    assert(decreases_to!(v@ => v@[q]));
                    assert(decreases_to!(v@[q] => inner));
                }
                match spec_qchildren(inner, next_id(id)) {
                    Some((children, id2)) => Some(
                        (QElementView { tag_name: tag, attributes, children }, q + 1, id2),
                    ),
                    None => None,
                }
            } else {
                None
            },
        },
    }
}

/// The children of an element, read from the tokens between its braces, the first
/// given the id `id`: `$` and an expression for a store, a loop after `for`,
/// items otherwise; with the next free id.
pub open spec fn spec_qchildren(c: Vec<TokenTree>, id: u64) -> Option<(QChildrenView, u64)>
    decreases c, c@.len() + 1, 0int,
{
    if is_punct_at(c@, 0, '$') {
        if is_expr(c, 1, c@.len() as int) {
            Some((QChildrenView::ReactiveStore(range_view(c, 1, c@.len() as int)), id))
        } else {
            None
        }
    } else if is_word_at(c@, 0, "for"@) {
        match spec_qfor(c, 0, id) {
            Some((f, e, id2)) => if e == c@.len() {
                Some((QChildrenView::ForLoop(f), id2))
            } else {
                None
            },
            None => None,
        }
    } else {
        match spec_qitems_from(c, 0, id) {
            Some((items, id2)) => Some((QChildrenView::Items(items), id2)),
            None => None,
        }
    }
}

/// A loop read from token `p` on, given the id `id`: `for`, a pattern, `in`, `$`
/// for a store or nothing, the iterable expression, and the one item of its body
/// between braces; with the position after it and the next free id.
pub open spec fn spec_qfor(v: Vec<TokenTree>, p: int, id: u64) -> Option<(ForLoopView, int, u64)>
    decreases v, v@.len() - p, 0int,
{
    if !is_word_at(v@, p, "for"@) {
        None
    } else {
        match pattern_end_from(v, p + 1, p + 1) {
            None => None,
            Some(q) => {
                let reactive = is_punct_at(v@, q + 1, '$');
                let s = if reactive {
                    q + 2
                } else {
                    q + 1
                };
                match block_expr_end_from(v, s, s) {
                    None => None,
                    Some(b) => {
                        if 0 <= b < v@.len() && v@[b] is Group {
                            let inner = v@[b]->Group_1;
                            proof {
                                assert(decreases_to!(v => v@));
                                assert(decreases_to!(v@ => v@[b]));
                                assert(decreases_to!(v@[b] => inner));
                            }
                            match spec_qitem(inner, 0, next_id(id)) {
                                Some((item, e, id2)) => if e == inner@.len() {
                                    Some(
                                        (
                                            ForLoopView {
                                                pattern: range_view(v, p + 1, q),
                                                reactive,
                                                iterable: range_view(v, s, b),
                                                item: Box::new(item),
                                                id,
                                            },
                                            b + 1,
                                            id2,
                                        ),
                                    )
                                } else {
                                    None
                                },
                                None => None,
                            }
                        } else {
                            None
                        }
                    },
                }
            },
        }
    }
}

/// The end that `pattern_end_from` finds is an `in` at or after where it looks.
pub proof fn lemma_pattern_end_is_in(v: Vec<TokenTree>, a: int, q: int)
    ensures
        pattern_end_from(v, a, q) matches Some(e) ==> q <= e && is_word_at(v@, e, "in"@),
    decreases v@.len() - q,
{
    if 0 <= q < v@.len() && !(is_word_at(v@, q, "in"@) && syn_pat_text(range_text(v, a, q))) {
        lemma_pattern_end_is_in(v, a, q + 1);
    }
}

/// What a loop reads: after `for`, its pattern runs up to an `in`; the loop goes
/// over a store exactly when the token right after that `in` is `$`; its iterable
/// is the tokens from there (after the `$`, if any) up to its body, the group that
/// ends the loop.
pub proof fn lemma_for_loop_reads(v: Vec<TokenTree>, p: int, id: u64)
    ensures
        spec_qfor(v, p, id) matches Some((f, end, _)) ==> {
            &&& is_word_at(v@, p, "for"@)
            &&& 0 < end <= v@.len()
            &&& v@[end - 1] is Group
            &&& exists|q: int|
                #![trigger is_word_at(v@, q, "in"@)]
                {
                    &&& is_word_at(v@, q, "in"@)
                    &&& p + 1 <= q
                    &&& f.pattern == range_view(v, p + 1, q)
                    &&& f.reactive <==> is_punct_at(v@, q + 1, '$')
                    &&& f.iterable == range_view(
                        v,
                        if f.reactive {
                            q + 2
                        } else {
                            q + 1
                        },
                        end - 1,
                    )
                }
        },
{
    if let Some((f, end, _)) = spec_qfor(v, p, id) {
        lemma_pattern_end_is_in(v, p + 1, p + 1);
        let q = pattern_end_from(v, p + 1, p + 1)->Some_0;
        assert(is_word_at(v@, q, "in"@));
    }
}

/// A component used in a view: its type, the properties it is given, the name its
/// instance is bound to, and its loop id once it stands within a loop.
pub struct Component {
    pub name: Expr,
    pub props: Props,
    pub binding: Option<String>,
    /// Will be updated with a for loop id if this component is used in a for loop.
    pub for_loop_id: Option<u64>,
}

/// An element: its tag name, its attributes and its children.
pub struct Element {
    pub tag_name: HtmlIdent,
    pub attributes: Attributes,
    pub children: Children,
}

/// The items an element holds.
pub struct Items {
    pub items: Vec<Item>,
}

/// The children of an element: items, a store whose value it shows, or a loop.
pub enum Children {
    Items(Items),
    ReactiveStore(ReactiveStore),
    ForLoop(ForLoop),
}

/// What a loop goes over: a store (`$store`), or an expression.
pub enum ForLoopIterable {
    Reactive(Expr),
    Static(Expr),
}

/// A loop: `for pattern in iterable { item }`.
pub struct ForLoop {
    pub pattern: Expr,
    pub iterable: ForLoopIterable,
    pub item: Box<Item>,
    pub bindings: Vec<String>,
    pub id: u64,
}

/// One item of a view: a component, an element, or an expression between braces.
pub enum Item {
    Component(Component),
    Element(Element),
    Expression(Expr),
}

/// The value of a component.
pub open spec fn component_view(c: Component) -> ComponentView {
    ComponentView {
        name: c.name@,
        props: c.props.0@,
        binding: match c.binding {
            Some(b) => Some(b@),
            None => None,
        },
    }
}

/// The value of an item.
pub open spec fn qitem_view(i: Item) -> QItemView
    decreases i, 0int,
{
    match i {
        Item::Component(c) => QItemView::Component(component_view(c)),
        Item::Element(e) => {
            proof {
                assert(decreases_to!(i => e));
            }
            QItemView::Element(qelement_view(e))
        },
        Item::Expression(x) => QItemView::Expression(x@),
    }
}

/// The value of an element.
pub open spec fn qelement_view(e: Element) -> QElementView
    decreases e, 0int,
{
    proof {
        assert(decreases_to!(e => e.children));
    }
    QElementView {
        tag_name: e.tag_name.0@,
        attributes: e.attributes@,
        children: qchildren_view(e.children),
    }
}

/// The value of the children of an element.
pub open spec fn qchildren_view(c: Children) -> QChildrenView
    decreases c, 0int,
{
    match c {
        Children::Items(items) => {
            proof {
                assert(decreases_to!(c => items));
                assert(decreases_to!(items => items.items));
            }
            QChildrenView::Items(qitems_view(items.items, items.items@.len() as int))
        },
        Children::ReactiveStore(store) => QChildrenView::ReactiveStore((*store.0)@),
        Children::ForLoop(f) => {
            proof {
                assert(decreases_to!(c => f));
            }
            QChildrenView::ForLoop(for_view(f))
        },
    }
}

/// The value of a loop.
pub open spec fn for_view(f: ForLoop) -> ForLoopView
    decreases f, 0int,
{
    proof {
        assert(decreases_to!(f => f.item));
    }
    ForLoopView {
        pattern: f.pattern@,
        reactive: f.iterable is Reactive,
        iterable: match f.iterable {
            ForLoopIterable::Reactive(e) => e@,
            ForLoopIterable::Static(e) => e@,
        },
        item: Box::new(qitem_view(*f.item)),
        id: f.id,
    }
}

/// The values of the first `n` items of `v`.
pub open spec fn qitems_view(v: Vec<Item>, n: int) -> Seq<QItemView>
    decreases v, n,
{
    if n <= 0 || n > v@.len() {
        Seq::empty()
    } else {
        proof {
            assert(decreases_to!(v => v@));
            assert(decreases_to!(v@ => v@[n - 1]));
        }
        qitems_view(v, n - 1).push(qitem_view(v@[n - 1]))
    }
}

/// Items that are the same give the same values.
proof fn lemma_qitems_view_same(a: Vec<Item>, b: Vec<Item>, n: int)
    requires
        0 <= n <= a@.len(),
        n <= b@.len(),
        forall|i: int| 0 <= i < n ==> a@[i] == b@[i],
    ensures
        qitems_view(a, n) == qitems_view(b, n),
    decreases n,
{
    if n > 0 {
        lemma_qitems_view_same(a, b, n - 1);
    }
}

/// Finds the end of a type that starts at token `a`, as `type_end_from` says from
/// the end of the tokens.
pub(crate) fn type_end(v: &Vec<TokenTree>, a: usize) -> (r: Option<usize>)
    requires
        a <= v@.len(),
    ensures
        match r {
            Some(e) => type_end_from(*v, a as int, v@.len() as int) == Some(e as int),
            None => type_end_from(*v, a as int, v@.len() as int) is None,
        },
{
    let mut p = v.len();
    while p > a
        invariant
            a <= p <= v@.len(),
            type_end_from(*v, a as int, v@.len() as int) == type_end_from(*v, a as int, p as int),
        decreases p - a,
    {
        let text = range_string(v, a, p);
        if reads_as_type(text.as_str()) {
            return Some(p);
        }
        p = p - 1;
    }
    None
}

/// Finds the end of the pattern of a loop that starts at token `a`, as
/// `pattern_end_from` says from `a` on.
fn pattern_end(v: &Vec<TokenTree>, a: usize) -> (r: Option<usize>)
    requires
        a <= v@.len(),
    ensures
        match r {
            Some(e) => pattern_end_from(*v, a as int, a as int) == Some(e as int),
            None => pattern_end_from(*v, a as int, a as int) is None,
        },
{
    let mut q = a;
    while q < v.len()
        invariant
            a <= q <= v@.len(),
            pattern_end_from(*v, a as int, a as int) == pattern_end_from(*v, a as int, q as int),
        decreases v@.len() - q,
    {
        if peek_word(v, q, "in") {
            let text = range_string(v, a, q);
            if reads_as_pattern(text.as_str()) {
                return Some(q);
            }
        }
        q = q + 1;
    }
    None
}

/// Finds the end of an expression that starts at token `a` and is followed by a
/// block, as `block_expr_end_from` says from `a` on.
fn block_expr_end(v: &Vec<TokenTree>, a: usize) -> (r: Option<usize>)
    requires
        a <= v@.len(),
    ensures
        match r {
            Some(e) => block_expr_end_from(*v, a as int, a as int) == Some(e as int),
            None => block_expr_end_from(*v, a as int, a as int) is None,
        },
{
    let mut q = a;
    while q < v.len()
        invariant
            a <= q <= v@.len(),
            block_expr_end_from(*v, a as int, a as int) == block_expr_end_from(
                *v,
                a as int,
                q as int,
            ),
        decreases v@.len() - q,
    {
        if let TokenTree::Group(Delimiter::Brace, _) = &v[q] {
            let text = range_string(v, a, q);
            if reads_as_expr(text.as_str()) {
                return Some(q);
            }
        }
        q = q + 1;
    }
    None
}

impl Component {
    /// Reads a component from token `pos` on (after its `@`), as `spec_qcomponent`
    /// says; its loop id is not set yet.
    pub fn parse(tokens: &Vec<TokenTree>, pos: usize) -> (r: Result<(Component, usize), SyntaxError>)
        requires
            pos <= tokens@.len(),
        ensures
            r matches Ok((c, end)) ==> spec_qcomponent(*tokens, pos as int) == Some(
                (component_view(c), end as int),
            ) && c.for_loop_id is None,
            r is Err <==> spec_qcomponent(*tokens, pos as int) is None,
    {
        let n = tokens.len();
        proof {
            lemma_type_end_bounds(*tokens, pos as int, n as int);
        }
        let e = match type_end(tokens, pos) {
            Some(e) => e,
            None => {
                return Err(SyntaxError);
            },
        };
        let name = range_expr(tokens, pos, e);
        let mut q = e;
        let mut props_tokens: Vec<TokenTree> = Vec::new();
        let mut has_props = false;
        if e < n {
            if let TokenTree::Group(Delimiter::Parenthesis, inner) = &tokens[e] {
                let text = range_string(inner, 0, inner.len());
                if !reads_as_expr(text.as_str()) {
                    return Err(SyntaxError);
                }
                let x = range_expr(inner, 0, inner.len());
                props_tokens = x.tokens;
                has_props = true;
                q = e + 1;
            }
        }
        if !has_props {
            let empty: Vec<TokenTree> = Vec::new();
            assert(crate::tokens::all_tokens_view(empty) =~= Seq::<TokenView>::empty());
            crate::tokens::push_token(
                &mut props_tokens,
                crate::tokens::group(Delimiter::Parenthesis, empty),
            );
            assert(crate::tokens::all_tokens_view(props_tokens) =~= unit_tokens());
        }
        let props = Props(Expr { tokens: props_tokens });
        assert(has_props == is_group_at(tokens@, e as int, Delimiter::Parenthesis));
        if peek_punct(tokens, q, ':') {
            if !peek_ident(tokens, q + 1) {
                return Err(SyntaxError);
            }
            let binding = match &tokens[q + 1] {
                TokenTree::Ident(b) => b.clone(),
                _ => String::new(),
            };
            Ok((Component { name, props, binding: Some(binding), for_loop_id: None }, q + 2))
        } else {
            Ok((Component { name, props, binding: None, for_loop_id: None }, q))
        }
    }
}

impl Items {
    /// Reads the items from token `pos` on, up to the end of the tokens, the first
    /// given the id `id`, as `spec_qitems_from` says; with the next free id.
    pub fn parse(tokens: &Vec<TokenTree>, pos: usize, id: u64) -> (r: Result<(Items, u64), SyntaxError>)
        requires
            pos <= tokens@.len(),
        ensures
            r matches Ok((items, id2)) ==> spec_qitems_from(*tokens, pos as int, id) == Some(
                (qitems_view(items.items, items.items@.len() as int), id2),
            ),
            r is Err <==> spec_qitems_from(*tokens, pos as int, id) is None,
        decreases tokens, tokens@.len() - pos, 2int,
    {
        let mut items: Vec<Item> = Vec::new();
        let mut i = pos;
        let mut next = id;
        while i < tokens.len()
            invariant
                pos <= i <= tokens@.len(),
                forall|s: Seq<QItemView>, k: u64| #[trigger]
                    spec_qitems_from(*tokens, i as int, next) == Some((s, k))
                        ==> spec_qitems_from(*tokens, pos as int, id) == Some(
                        (qitems_view(items, items@.len() as int) + s, k),
                    ),
                spec_qitems_from(*tokens, i as int, next) is None ==> spec_qitems_from(
                    *tokens,
                    pos as int,
                    id,
                ) is None,
            decreases tokens@.len() - i,
        {
            match Item::parse(tokens, i, next) {
                Err(e) => {
                    return Err(e);
                },
                Ok((item, k, id2)) => {
                    if !(i < k && k <= tokens.len()) {
                        return Err(SyntaxError);
                    }
                    let ghost before = items;
                    let ghost one = qitem_view(item);
                    items.push(item);
                    proof {
                        lemma_qitems_view_same(items, before, before@.len() as int);
                        assert(qitems_view(items, items@.len() as int) =~= qitems_view(
                            before,
                            before@.len() as int,
                        ) + seq![one]);
                        assert forall|s: Seq<QItemView>, k2: u64| #[trigger]
                            spec_qitems_from(*tokens, k as int, id2) == Some(
                                (s, k2),
                            ) implies spec_qitems_from(*tokens, pos as int, id) == Some(
                            (qitems_view(items, items@.len() as int) + s, k2),
                        ) by {
                            assert(spec_qitems_from(*tokens, i as int, next) == Some(
                                (seq![one] + s, k2),
                            ));
                            assert(qitems_view(before, before@.len() as int) + (seq![one] + s)
                                =~= qitems_view(items, items@.len() as int) + s);
                        }
                    }
                    i = k;
                    next = id2;
                },
            }
        }
        assert(spec_qitems_from(*tokens, i as int, next) == Some((Seq::<QItemView>::empty(), next)));
        assert(qitems_view(items, items@.len() as int) + Seq::<QItemView>::empty() =~= qitems_view(
            items,
            items@.len() as int,
        ));
        assert(spec_qitems_from(*tokens, pos as int, id) == Some(
            (qitems_view(items, items@.len() as int) + Seq::<QItemView>::empty(), next),
        ));
        Ok((Items { items }, next))
    }
}

impl Item {
    /// Reads an item from token `pos` on, given the id `id`, as `spec_qitem` says;
    /// with the position after it and the next free id.
    pub fn parse(tokens: &Vec<TokenTree>, pos: usize, id: u64) -> (r: Result<
        (Item, usize, u64),
        SyntaxError,
    >)
        requires
            pos <= tokens@.len(),
        ensures
            r matches Ok((item, end, id2)) ==> spec_qitem(*tokens, pos as int, id) == Some(
                (qitem_view(item), end as int, id2),
            ),
            r is Err <==> spec_qitem(*tokens, pos as int, id) is None,
        decreases tokens, tokens@.len() - pos, 1int,
    {
        let n = tokens.len();
        if pos < n {
            if let TokenTree::Group(Delimiter::Brace, inner) = &tokens[pos] {
                let text = range_string(inner, 0, inner.len());
                if reads_as_expr(text.as_str()) {
                    let e = range_expr(inner, 0, inner.len());
                    return Ok((Item::Expression(e), pos + 1, id));
                } else {
                    return Err(SyntaxError);
                }
            }
        }
        if peek_punct(tokens, pos, '@') {
            return match Component::parse(tokens, pos + 1) {
                Ok((c, e)) => Ok((Item::Component(c), e, id)),
                Err(err) => Err(err),
            };
        }
        match Element::parse(tokens, pos, id) {
            Ok((element, e, id2)) => Ok((Item::Element(element), e, id2)),
            Err(err) => Err(err),
        }
    }
}

impl Element {
    /// Inserts the attribute `key` with the expression `value`, as
    /// `Attributes::insert_static` does; returns the value the key had before.
    pub fn insert_attribute(&mut self, key: &str, value: Expr) -> (previous: Option<Expr>)
        requires
            old(self).attributes.wf(),
        ensures
            final(self).attributes.wf(),
            final(self).attributes@ == spec_insert_static(old(self).attributes@, key@, value@).0,
            match previous {
                Some(p) => spec_insert_static(old(self).attributes@, key@, value@).1 == Some(p@),
                None => spec_insert_static(old(self).attributes@, key@, value@).1 is None,
            },
            final(self).tag_name == old(self).tag_name,
            final(self).children == old(self).children,
    {
        self.attributes.insert_static(key, value)
    }

    /// Reads an element from token `pos` on, its attributes given the id `id`, as
    /// `spec_qelement` says; with the position after it and the next free id.
    pub fn parse(tokens: &Vec<TokenTree>, pos: usize, id: u64) -> (r: Result<
        (Element, usize, u64),
        SyntaxError,
    >)
        requires
            pos <= tokens@.len(),
        ensures
            r matches Ok((element, end, id2)) ==> spec_qelement(*tokens, pos as int, id) == Some(
                (qelement_view(element), end as int, id2),
            ),
            r is Err <==> spec_qelement(*tokens, pos as int, id) is None,
        decreases tokens, tokens@.len() - pos, 0int,
    {
        let n = tokens.len();
        proof {
            lemma_html_ident_end(tokens@, pos as int, true);
        }
        let (tag, k) = match parse_html_ident(tokens, pos, true) {
            Ok(x) => x,
            Err(_) => {
                return Err(SyntaxError);
            },
        };
        let (attributes, q) = match Attributes::parse(tokens, k, id) {
            Ok(x) => x,
            Err(e) => {
                return Err(e);
            },
        };
        if q < n {
            if let TokenTree::Group(Delimiter::Brace, inner) = &tokens[q] {
                proof {
                    assert(decreases_to!(tokens => tokens@));
                    assert(decreases_to!(tokens@ => tokens@[q as int]));
                    assert(decreases_to!(tokens@[q as int] => *inner));
                }
                return match Children::parse(inner, bump(id)) {
                    Ok((children, id2)) => Ok(
                        (Element { tag_name: HtmlIdent(tag), attributes, children }, q + 1, id2),
                    ),
                    Err(e) => Err(e),
                };
            }
        }
        Err(SyntaxError)
    }
}

impl Children {
    /// Reads the children of an element from the tokens between its braces, the
    /// first given the id `id`, as `spec_qchildren` says; with the next free id.
    pub fn parse(tokens: &Vec<TokenTree>, id: u64) -> (r: Result<(Children, u64), SyntaxError>)
        ensures
            r matches Ok((children, id2)) ==> spec_qchildren(*tokens, id) == Some(
                (qchildren_view(children), id2),
            ),
            r is Err <==> spec_qchildren(*tokens, id) is None,
        decreases tokens, tokens@.len() + 1, 0int,
    {
        if peek_punct(tokens, 0, '$') {
            let text = range_string(tokens, 1, tokens.len());
            if reads_as_expr(text.as_str()) {
                let e = range_expr(tokens, 1, tokens.len());
                return Ok((Children::ReactiveStore(ReactiveStore(Box::new(e))), id));
            } else {
                return Err(SyntaxError);
            }
        }
        if peek_word(tokens, 0, "for") {
            return match ForLoop::parse(tokens, 0, id) {
                Ok((f, e, id2)) => if e == tokens.len() {
                    Ok((Children::ForLoop(f), id2))
                } else {
                    Err(SyntaxError)
                },
                Err(err) => Err(err),
            };
        }
        match Items::parse(tokens, 0, id) {
            Ok((items, id2)) => Ok((Children::Items(items), id2)),
            Err(e) => Err(e),
        }
    }
}

impl ForLoop {
    /// Reads a loop from token `pos` on, given the id `id`, as `spec_qfor` says;
    /// with the position after it and the next free id. It binds no names yet.
    pub fn parse(tokens: &Vec<TokenTree>, pos: usize, id: u64) -> (r: Result<
        (ForLoop, usize, u64),
        SyntaxError,
    >)
        requires
            pos <= tokens@.len(),
        ensures
            r matches Ok((f, end, id2)) ==> spec_qfor(*tokens, pos as int, id) == Some(
                (for_view(f), end as int, id2),
            ) && f.bindings@.len() == 0,
            r is Err <==> spec_qfor(*tokens, pos as int, id) is None,
        decreases tokens, tokens@.len() - pos, 0int,
    {
        let n = tokens.len();
        if !peek_word(tokens, pos, "for") {
            return Err(SyntaxError);
        }
        proof {
            lemma_pattern_end_bounds(*tokens, pos + 1, pos + 1);
        }
        let q = match pattern_end(tokens, pos + 1) {
            Some(q) => q,
            None => {
                return Err(SyntaxError);
            },
        };
        let reactive = peek_punct(tokens, q + 1, '$');
        let s = if reactive {
            q + 2
        } else {
            q + 1
        };
        if s > n {
            return Err(SyntaxError);
        }
        proof {
            lemma_block_expr_end_bounds(*tokens, s as int, s as int);
        }
        let b = match block_expr_end(tokens, s) {
            Some(b) => b,
            None => {
                return Err(SyntaxError);
            },
        };
        if let TokenTree::Group(_, inner) = &tokens[b] {
            proof {
                assert(decreases_to!(tokens => tokens@));
                assert(decreases_to!(tokens@ => tokens@[b as int]));
                assert(decreases_to!(tokens@[b as int] => *inner));
            }
            match Item::parse(inner, 0, bump(id)) {
                Ok((item, e, id2)) => {
                    if e != inner.len() {
                        return Err(SyntaxError);
                    }
                    let pattern = range_expr(tokens, pos + 1, q);
                    let x = range_expr(tokens, s, b);
                    let iterable = if reactive {
                        ForLoopIterable::Reactive(x)
                    } else {
                        ForLoopIterable::Static(x)
                    };
                    let f = ForLoop {
                        pattern,
                        iterable,
                        item: Box::new(item),
                        bindings: Vec::new(),
                        id,
                    };
                    Ok((f, b + 1, id2))
                },
                Err(err) => Err(err),
            }
        } else {
            Err(SyntaxError)
        }
    }
}

/// An item shown on a condition: `if condition { item } else { item }`, the `else`
/// part optional.
pub struct If {
    pub condition: Expr,
    pub true_branch: Box<Item>,
    pub false_branch: Option<Box<Item>>,
}

/// A conditional item, as a mathematical value.
pub struct IfView {
    pub condition: Seq<TokenView>,
    pub true_branch: QItemView,
    pub false_branch: Option<QItemView>,
}

/// The value of a conditional item.
pub open spec fn if_view(i: If) -> IfView {
    IfView {
        condition: i.condition@,
        true_branch: qitem_view(*i.true_branch),
        false_branch: match i.false_branch {
            Some(b) => Some(qitem_view(*b)),
            None => None,
        },
    }
}

/// A conditional item read from token `p` on, the items in it given ids from `id`
/// on: `if`, the condition, the one item between braces, then `else` and the one
/// item between braces when `else` follows; with the position after it and the
/// next free id.
pub open spec fn spec_qif(v: Vec<TokenTree>, p: int, id: u64) -> Option<(IfView, int, u64)> {
    if !is_word_at(v@, p, "if"@) {
        None
    } else {
        match block_expr_end_from(v, p + 1, p + 1) {
            None => None,
            Some(b) => if 0 <= b < v@.len() && v@[b] is Group {
                let inner = v@[b]->Group_1;
                match spec_qitem(inner, 0, id) {
                    None => None,
                    Some((t, e, id2)) => if e != inner@.len() {
                        None
                    } else if is_word_at(v@, b + 1, "else"@) {
                        if is_group_at(v@, b + 2, Delimiter::Brace) {
                            let other = v@[b + 2]->Group_1;
                            match spec_qitem(other, 0, id2) {
                                Some((f, e2, id3)) => if e2 == other@.len() {
                                    Some(
                                        (
                                            IfView {
                                                condition: range_view(v, p + 1, b),
                                                true_branch: t,
                                                false_branch: Some(f),
                                            },
                                            b + 3,
                                            id3,
                                        ),
                                    )
                                } else {
                                    None
                                },
                                None => None,
                            }
                        } else {
                            None
                        }
                    } else {
                        Some(
                            (
                                IfView {
                                    condition: range_view(v, p + 1, b),
                                    true_branch: t,
                                    false_branch: None,
                                },
                                b + 1,
                                id2,
                            ),
                        )
                    },
                }
            } else {
                None
            },
        }
    }
}

impl If {
    /// Reads a conditional item from token `pos` on, as `spec_qif` says; with the
    /// position after it and the next free id.
    pub fn parse(tokens: &Vec<TokenTree>, pos: usize, id: u64) -> (r: Result<
        (If, usize, u64),
        SyntaxError,
    >)
        requires
            pos <= tokens@.len(),
        ensures
            r matches Ok((i, end, id2)) ==> spec_qif(*tokens, pos as int, id) == Some(
                (if_view(i), end as int, id2),
            ),
            r is Err <==> spec_qif(*tokens, pos as int, id) is None,
    {
        let n = tokens.len();
        if !peek_word(tokens, pos, "if") {
            return Err(SyntaxError);
        }
        proof {
            lemma_block_expr_end_bounds(*tokens, pos + 1, pos + 1);
        }
        let b = match block_expr_end(tokens, pos + 1) {
            Some(b) => b,
            None => {
                return Err(SyntaxError);
            },
        };
        let (t, id2) = if let TokenTree::Group(_, inner) = &tokens[b] {
            match Item::parse(inner, 0, id) {
                Ok((t, e, id2)) => {
                    if e != inner.len() {
                        return Err(SyntaxError);
                    }
                    (t, id2)
                },
                Err(err) => {
                    return Err(err);
                },
            }
        } else {
            return Err(SyntaxError);
        };
        let condition = range_expr(tokens, pos + 1, b);
        if peek_word(tokens, b + 1, "else") {
            if b + 2 < n {
                if let TokenTree::Group(Delimiter::Brace, other) = &tokens[b + 2] {
                    return match Item::parse(other, 0, id2) {
                        Ok((f, e2, id3)) => if e2 == other.len() {
                            Ok(
                                (
                                    If {
                                        condition,
                                        true_branch: Box::new(t),
                                        false_branch: Some(Box::new(f)),
                                    },
                                    b + 3,
                                    id3,
                                ),
                            )
                        } else {
                            Err(SyntaxError)
                        },
                        Err(err) => Err(err),
                    };
                }
            }
            return Err(SyntaxError);
        }
        Ok((If { condition, true_branch: Box::new(t), false_branch: None }, b + 1, id2))
    }
}

/// A view, as a mathematical value.
pub struct ViewView {
    pub context: Seq<TokenView>,
    pub element: QElementView,
}

/// A view read from all the tokens, the ids of its elements from `id` on: the
/// longest run of tokens that reads as an expression, a comma, and an element
/// that takes the rest of the tokens; with the next free id.
pub open spec fn spec_view(v: Vec<TokenTree>, id: u64) -> Option<(ViewView, u64)> {
    match expr_end_from(v, 0, v@.len() as int) {
        None => None,
        Some(e) => if is_punct_at(v@, e, ',') {
            match spec_qelement(v, e + 1, id) {
                Some((element, end, id2)) => if end == v@.len() {
                    Some((ViewView { context: range_view(v, 0, e), element }, id2))
                } else {
                    None
                },
                None => None,
            }
        } else {
            None
        },
    }
}


} // verus!
