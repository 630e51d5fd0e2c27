//! What the server build of a view renders: the HTML of each element, with the
//! components it constructs and the nodes it hands to the client.

use vstd::prelude::*;
use crate::macros::{id_tv, p_tv, push_id, push_p};
use crate::html::{
    empty_attributes, html_format, keys_view, scoped_id_key, spec_add_attributes, values_view,
    get_html_string, Attributes, AttributesView,
};
use crate::html::parse::{props_view, Children, Component, Element, Item};
use crate::html::client::{
    blocks_view, spec_add_child_data, spec_item_data, strings_view, unit_token, unit_tv, DataView as ClientDataView,
};
use crate::html::{Attribute, AttributeValue};
use crate::html::parse::{item_view, items_view, ChildrenView, ItemView};
use crate::text::push_str;
use crate::tokens::{
    all_tokens_view, append_tokens, group, path_sep, push_path_sep, push_token, string_literal,
    string_literal_text, Delimiter, Expr, TokenTree, TokenView,
};
use crate::view::generate::server::{decimal, push_decimal};
use crate::view::parse::grammar::{bump, next_id};

verus! {

/// The name `<prefix><suffix>`.
pub open spec fn named(prefix: Seq<char>, suffix: Seq<char>) -> TokenView {
    id_tv(prefix + suffix)
}

/// The tokens of `<name as shared::Component>`.
pub open spec fn component_trait_tokens(name: Seq<char>) -> Seq<TokenView> {
    seq![p_tv('<'), id_tv(name), id_tv("as"@), id_tv("shared"@)] + path_sep() + seq![
        id_tv("Component"@),
        p_tv('>'),
    ]
}

/// The properties `key: value`, with `,` between two of them.
pub open spec fn props_tokens(props: Seq<(Seq<char>, Seq<TokenView>)>) -> Seq<TokenView>
    decreases props.len(),
{
    if props.len() == 0 {
        Seq::empty()
    } else if props.len() == 1 {
        seq![id_tv(props[0].0), p_tv(':')] + props[0].1
    } else {
        props_tokens(props.drop_last()) + seq![p_tv(','), id_tv(props.last().0), p_tv(':')]
            + props.last().1
    }
}

/// A single property reads `key: value`.
pub proof fn lemma_one_prop(key: Seq<char>, value: Seq<TokenView>)
    ensures
        props_tokens(seq![(key, value)]) == seq![id_tv(key), p_tv(':')] + value,
{
}

/// The properties of two lists one after the other read as those of the first, a
/// `,`, then those of the second: fields are separated by commas.
pub proof fn lemma_props_join(a: Seq<(Seq<char>, Seq<TokenView>)>, b: Seq<(Seq<char>, Seq<TokenView>)>)
    requires
        a.len() > 0,
        b.len() > 0,
    ensures
        props_tokens(a + b) == props_tokens(a) + seq![p_tv(',')] + props_tokens(b),
    decreases b.len(),
{
    if b.len() == 1 {
        assert((a + b).drop_last() =~= a);
        assert((a + b).last() == b[0]);
    } else {
        lemma_props_join(a, b.drop_last());
        assert((a + b).drop_last() =~= a + b.drop_last());
        assert((a + b).last() == b.last());
        assert(props_tokens(a + b) =~= props_tokens(a) + seq![p_tv(',')] + props_tokens(b));
    }
}

/// The properties a component is made with: `()` when it has none, else
/// `<name as shared::Component>::Props { key: value, ... }`.
pub open spec fn props_value_tokens(name: Seq<char>, props: Seq<(Seq<char>, Seq<TokenView>)>) -> Seq<
    TokenView,
> {
    if props.len() == 0 {
        seq![unit_tv()]
    } else {
        component_trait_tokens(name) + path_sep() + seq![
            id_tv("Props"@),
            TokenView::Group(Delimiter::Brace, props_tokens(props)),
        ]
    }
}

/// The tokens of `shared::RenderContext { id: shared::generate_id(), children: Vec::new() }`.
pub open spec fn fresh_context_tokens() -> Seq<TokenView> {
    seq![id_tv("shared"@)] + path_sep() + seq![
        id_tv("RenderContext"@),
        TokenView::Group(
            Delimiter::Brace,
            seq![id_tv("id"@), p_tv(':'), id_tv("shared"@)] + path_sep() + seq![
                id_tv("generate_id"@),
                unit_tv(),
                p_tv(','),
                id_tv("children"@),
                p_tv(':'),
                id_tv("Vec"@),
            ] + path_sep() + seq![id_tv("new"@), unit_tv()],
        ),
    ]
}

/// The statements that construct and render a component named `name`, whose
/// identifiers end in `suffix`:
/// `let component_<s> = <name as shared::Component>::init(<props>);
/// let component_context_<s> = <fresh context>;
/// let rendered_component_<s> = component_<s>.render(std::clone::Clone::clone(&component_context_<s>));`.
pub open spec fn constructor_tokens(
    name: Seq<char>,
    props: Seq<(Seq<char>, Seq<TokenView>)>,
    suffix: Seq<char>,
) -> Seq<TokenView> {
    let component = named("component_"@, suffix);
    let context = named("component_context_"@, suffix);
    let rendered = named("rendered_component_"@, suffix);
    seq![id_tv("let"@), component, p_tv('=')] + component_trait_tokens(name) + path_sep() + seq![
        id_tv("init"@),
        TokenView::Group(Delimiter::Parenthesis, props_value_tokens(name, props)),
        p_tv(';'),
        id_tv("let"@),
        context,
        p_tv('='),
    ] + fresh_context_tokens() + seq![p_tv(';'), id_tv("let"@), rendered, p_tv('='), component, p_tv('.'), id_tv("render"@),
        TokenView::Group(
            Delimiter::Parenthesis,
            seq![id_tv("std"@)] + path_sep() + seq![id_tv("clone"@)] + path_sep() + seq![
                id_tv("Clone"@),
            ] + path_sep() + seq![
                id_tv("clone"@),
                TokenView::Group(Delimiter::Parenthesis, seq![p_tv('&'), context]),
            ],
        ),
        p_tv(';'),
    ]
}

/// The node handed to the client for a component whose identifiers end in `suffix`:
/// `shared::ClientComponentNode { component: T::from(component_<s>), render_context:
/// shared::RenderContext { id: component_context_<s>.id, children:
/// rendered_component_<s>.component_node.render_context.children, }, }`.
pub open spec fn node_tokens(suffix: Seq<char>) -> Seq<TokenView> {
    let component = named("component_"@, suffix);
    let context = named("component_context_"@, suffix);
    let rendered = named("rendered_component_"@, suffix);
    seq![id_tv("shared"@)] + path_sep() + seq![
        id_tv("ClientComponentNode"@),
        TokenView::Group(
            Delimiter::Brace,
            seq![id_tv("component"@), p_tv(':'), id_tv("T"@)] + path_sep() + seq![
                id_tv("from"@),
                TokenView::Group(Delimiter::Parenthesis, seq![component]),
                p_tv(','),
                id_tv("render_context"@),
                p_tv(':'),
                id_tv("shared"@),
            ] + path_sep() + seq![
                id_tv("RenderContext"@),
                TokenView::Group(
                    Delimiter::Brace,
                    seq![
                        id_tv("id"@),
                        p_tv(':'),
                        context,
                        p_tv('.'),
                        id_tv("id"@),
                        p_tv(','),
                        id_tv("children"@),
                        p_tv(':'),
                        rendered,
                        p_tv('.'),
                        id_tv("component_node"@),
                        p_tv('.'),
                        id_tv("render_context"@),
                        p_tv('.'),
                        id_tv("children"@),
                        p_tv(','),
                    ],
                ),
                p_tv(','),
            ],
        ),
    ]
}

/// The HTML of a rendered component whose identifiers end in `suffix`:
/// `rendered_component_<s>.html`.
pub open spec fn component_html_tokens(suffix: Seq<char>) -> Seq<TokenView> {
    seq![named("rendered_component_"@, suffix), p_tv('.'), id_tv("html"@)]
}

/// The identifier `<prefix><suffix>`.
fn push_named(v: &mut Vec<TokenTree>, prefix: &str, suffix: &str)
    ensures
        all_tokens_view(*final(v)) == all_tokens_view(*old(v)).push(named(prefix@, suffix@)),
{
    let mut name = String::from_str(prefix);
    push_str(&mut name, suffix);
    push_token(v, TokenTree::Ident(name));
}

/// `<name as shared::Component>`
fn push_component_trait(v: &mut Vec<TokenTree>, name: &str)
    ensures
        all_tokens_view(*final(v)) == all_tokens_view(*old(v)) + component_trait_tokens(name@),
{
    let ghost start = all_tokens_view(*v);
    push_p(v, '<');
    push_id(v, name);
    push_id(v, "as");
    push_id(v, "shared");
    push_path_sep(v);
    push_id(v, "Component");
    push_p(v, '>');
    assert(all_tokens_view(*v) =~= start + component_trait_tokens(name@));
}

/// The tokens of `props_value_tokens`.
fn props_value(component: &Component) -> (v: Vec<TokenTree>)
    ensures
        all_tokens_view(v) == props_value_tokens(component.name@, props_view(component.props@)),
{
    let ghost all = props_view(component.props@);
    let mut v: Vec<TokenTree> = Vec::new();
    if component.props.len() == 0 {
        push_token(&mut v, unit_token());
        assert(all_tokens_view(v) =~= seq![unit_tv()]);
        return v;
    }
    let mut fields: Vec<TokenTree> = Vec::new();
    let mut i: usize = 0;
    while i < component.props.len()
        invariant
            all == props_view(component.props@),
            i <= component.props@.len(),
            all_tokens_view(fields) == props_tokens(all.take(i as int)),
        decreases component.props@.len() - i,
    {
        let ghost before = all_tokens_view(fields);
        if i > 0 {
            push_p(&mut fields, ',');
        }
        push_id(&mut fields, component.props[i].key.as_str());
        push_p(&mut fields, ':');
        append_tokens(&mut fields, &component.props[i].value.tokens);
        let ghost taken = all.take(i + 1);
        assert(taken.drop_last() =~= all.take(i as int));
        assert(taken.last() == (component.props@[i as int].key@, component.props@[i as int].value@));
        if i == 0 {
            assert(all_tokens_view(fields) =~= props_tokens(taken));
        } else {
            assert(all_tokens_view(fields) =~= props_tokens(taken));
        }
        i = i + 1;
    }
    assert(all.take(i as int) =~= all);
    let ghost inner = all_tokens_view(fields);
    push_component_trait(&mut v, component.name.as_str());
    push_path_sep(&mut v);
    push_id(&mut v, "Props");
    push_token(&mut v, group(Delimiter::Brace, fields));
    assert(all_tokens_view(v) =~= props_value_tokens(component.name@, all));
    v
}

/// The tokens of `fresh_context_tokens`.
fn push_fresh_context(v: &mut Vec<TokenTree>)
    ensures
        all_tokens_view(*final(v)) == all_tokens_view(*old(v)) + fresh_context_tokens(),
{
    let ghost start = all_tokens_view(*v);
    let mut fields: Vec<TokenTree> = Vec::new();
    push_id(&mut fields, "id");
    push_p(&mut fields, ':');
    push_id(&mut fields, "shared");
    push_path_sep(&mut fields);
    push_id(&mut fields, "generate_id");
    push_token(&mut fields, unit_token());
    push_p(&mut fields, ',');
    push_id(&mut fields, "children");
    push_p(&mut fields, ':');
    push_id(&mut fields, "Vec");
    push_path_sep(&mut fields);
    push_id(&mut fields, "new");
    push_token(&mut fields, unit_token());
    assert(all_tokens_view(fields) =~= seq![id_tv("id"@), p_tv(':'), id_tv("shared"@)] + path_sep()
        + seq![id_tv("generate_id"@), unit_tv(), p_tv(','), id_tv("children"@), p_tv(':'), id_tv("Vec"@)]
        + path_sep() + seq![id_tv("new"@), unit_tv()]);
    push_id(v, "shared");
    push_path_sep(v);
    push_id(v, "RenderContext");
    push_token(v, group(Delimiter::Brace, fields));
    assert(all_tokens_view(*v) =~= start + fresh_context_tokens());
}

/// The statements of `constructor_tokens`.
fn constructor(component: &Component, suffix: &str) -> (v: Vec<TokenTree>)
    ensures
        all_tokens_view(v) == constructor_tokens(
            component.name@,
            props_view(component.props@),
            suffix@,
        ),
{
    let props = props_value(component);
    let ghost props_v = all_tokens_view(props);
    let mut borrowed: Vec<TokenTree> = Vec::new();
    push_p(&mut borrowed, '&');
    push_named(&mut borrowed, "component_context_", suffix);
    assert(all_tokens_view(borrowed) =~= seq![p_tv('&'), named("component_context_"@, suffix@)]);
    let ghost borrowed_v = all_tokens_view(borrowed);
    let mut cloned: Vec<TokenTree> = Vec::new();
    push_id(&mut cloned, "std");
    push_path_sep(&mut cloned);
    push_id(&mut cloned, "clone");
    push_path_sep(&mut cloned);
    push_id(&mut cloned, "Clone");
    push_path_sep(&mut cloned);
    push_id(&mut cloned, "clone");
    push_token(&mut cloned, group(Delimiter::Parenthesis, borrowed));
    assert(all_tokens_view(cloned) =~= seq![id_tv("std"@)] + path_sep() + seq![id_tv("clone"@)]
        + path_sep() + seq![id_tv("Clone"@)] + path_sep() + seq![
        id_tv("clone"@),
        TokenView::Group(Delimiter::Parenthesis, borrowed_v),
    ]);
    let ghost cloned_v = all_tokens_view(cloned);
    let mut v: Vec<TokenTree> = Vec::new();
    push_id(&mut v, "let");
    push_named(&mut v, "component_", suffix);
    push_p(&mut v, '=');
    push_component_trait(&mut v, component.name.as_str());
    push_path_sep(&mut v);
    push_id(&mut v, "init");
    push_token(&mut v, group(Delimiter::Parenthesis, props));
    push_p(&mut v, ';');
    push_id(&mut v, "let");
    push_named(&mut v, "component_context_", suffix);
    push_p(&mut v, '=');
    let ghost head = all_tokens_view(v);
    push_fresh_context(&mut v);
    let ghost mid = all_tokens_view(v);
    push_p(&mut v, ';');
    push_id(&mut v, "let");
    push_named(&mut v, "rendered_component_", suffix);
    push_p(&mut v, '=');
    push_named(&mut v, "component_", suffix);
    push_p(&mut v, '.');
    push_id(&mut v, "render");
    push_token(&mut v, group(Delimiter::Parenthesis, cloned));
    push_p(&mut v, ';');
    assert(head =~= seq![id_tv("let"@), named("component_"@, suffix@), p_tv('=')]
        + component_trait_tokens(component.name@) + path_sep() + seq![
        id_tv("init"@),
        TokenView::Group(Delimiter::Parenthesis, props_v),
        p_tv(';'),
        id_tv("let"@),
        named("component_context_"@, suffix@),
        p_tv('='),
    ]);
    assert(all_tokens_view(v) =~= mid + seq![
        p_tv(';'),
        id_tv("let"@),
        named("rendered_component_"@, suffix@),
        p_tv('='),
        named("component_"@, suffix@),
        p_tv('.'),
        id_tv("render"@),
        TokenView::Group(Delimiter::Parenthesis, cloned_v),
        p_tv(';'),
    ]);
    assert(all_tokens_view(v) =~= constructor_tokens(
        component.name@,
        props_view(component.props@),
        suffix@,
    ));
    v
}

/// The node of `node_tokens`.
fn node(suffix: &str) -> (v: Vec<TokenTree>)
    ensures
        all_tokens_view(v) == node_tokens(suffix@),
{
    let mut from_arg: Vec<TokenTree> = Vec::new();
    push_named(&mut from_arg, "component_", suffix);
    assert(all_tokens_view(from_arg) =~= seq![named("component_"@, suffix@)]);
    let mut context: Vec<TokenTree> = Vec::new();
    push_id(&mut context, "id");
    push_p(&mut context, ':');
    push_named(&mut context, "component_context_", suffix);
    push_p(&mut context, '.');
    push_id(&mut context, "id");
    push_p(&mut context, ',');
    push_id(&mut context, "children");
    push_p(&mut context, ':');
    push_named(&mut context, "rendered_component_", suffix);
    push_p(&mut context, '.');
    push_id(&mut context, "component_node");
    push_p(&mut context, '.');
    push_id(&mut context, "render_context");
    push_p(&mut context, '.');
    push_id(&mut context, "children");
    push_p(&mut context, ',');
    assert(all_tokens_view(context) =~= seq![
        id_tv("id"@),
        p_tv(':'),
        named("component_context_"@, suffix@),
        p_tv('.'),
        id_tv("id"@),
        p_tv(','),
        id_tv("children"@),
        p_tv(':'),
        named("rendered_component_"@, suffix@),
        p_tv('.'),
        id_tv("component_node"@),
        p_tv('.'),
        id_tv("render_context"@),
        p_tv('.'),
        id_tv("children"@),
        p_tv(','),
    ]);
    let ghost context_v = all_tokens_view(context);
    let mut fields: Vec<TokenTree> = Vec::new();
    push_id(&mut fields, "component");
    push_p(&mut fields, ':');
    push_id(&mut fields, "T");
    push_path_sep(&mut fields);
    push_id(&mut fields, "from");
    push_token(&mut fields, group(Delimiter::Parenthesis, from_arg));
    push_p(&mut fields, ',');
    push_id(&mut fields, "render_context");
    push_p(&mut fields, ':');
    push_id(&mut fields, "shared");
    push_path_sep(&mut fields);
    push_id(&mut fields, "RenderContext");
    push_token(&mut fields, group(Delimiter::Brace, context));
    push_p(&mut fields, ',');
    assert(all_tokens_view(fields) =~= seq![id_tv("component"@), p_tv(':'), id_tv("T"@)] + path_sep()
        + seq![
        id_tv("from"@),
        TokenView::Group(Delimiter::Parenthesis, seq![named("component_"@, suffix@)]),
        p_tv(','),
        id_tv("render_context"@),
        p_tv(':'),
        id_tv("shared"@),
    ] + path_sep() + seq![
        id_tv("RenderContext"@),
        TokenView::Group(Delimiter::Brace, context_v),
        p_tv(','),
    ]);
    let mut v: Vec<TokenTree> = Vec::new();
    push_id(&mut v, "shared");
    push_path_sep(&mut v);
    push_id(&mut v, "ClientComponentNode");
    push_token(&mut v, group(Delimiter::Brace, fields));
    assert(all_tokens_view(v) =~= node_tokens(suffix@));
    v
}

/// The HTML of `component_html_tokens`.
fn component_html(suffix: &str) -> (v: Vec<TokenTree>)
    ensures
        all_tokens_view(v) == component_html_tokens(suffix@),
{
    let mut v: Vec<TokenTree> = Vec::new();
    push_named(&mut v, "rendered_component_", suffix);
    push_p(&mut v, '.');
    push_id(&mut v, "html");
    assert(all_tokens_view(v) =~= component_html_tokens(suffix@));
    v
}

/// What the server build makes of an item: the tokens of its HTML, the nodes it
/// hands to the client, and the statements that construct its components.
pub struct Data {
    pub component_nodes: Vec<Vec<TokenTree>>,
    pub component_constructors: Vec<Vec<TokenTree>>,
    pub html: Vec<TokenTree>,
}

/// `Data` as mathematical values.
pub struct DataView {
    pub component_nodes: Seq<Seq<TokenView>>,
    pub component_constructors: Seq<Seq<TokenView>>,
    pub html: Seq<TokenView>,
}

impl View for Data {
    type V = DataView;

    open spec fn view(&self) -> DataView {
        DataView {
            component_nodes: blocks_view(self.component_nodes@),
            component_constructors: blocks_view(self.component_constructors@),
            html: all_tokens_view(self.html),
        }
    }
}

/// The tokens of `<expression>.to_string()`.
pub open spec fn expression_html(x: Seq<TokenView>) -> Seq<TokenView> {
    x + seq![p_tv('.'), id_tv("to_string"@), unit_tv()]
}

/// The tokens of `shared::Store::get(&<store>)`.
pub open spec fn store_html(store: Seq<TokenView>) -> Seq<TokenView> {
    seq![id_tv("shared"@)] + path_sep() + seq![id_tv("Store"@)] + path_sep() + seq![
        id_tv("get"@),
        TokenView::Group(Delimiter::Parenthesis, seq![p_tv('&')] + store),
    ]
}

/// The tokens of `String::new()`.
pub open spec fn new_string_tokens() -> Seq<TokenView> {
    seq![id_tv("String"@)] + path_sep() + seq![id_tv("new"@), unit_tv()]
}

/// The expressions `values`, with `,` between two of them.
pub open spec fn comma_joined(values: Seq<Seq<TokenView>>) -> Seq<TokenView>
    decreases values.len(),
{
    if values.len() == 0 {
        Seq::empty()
    } else if values.len() == 1 {
        values[0]
    } else {
        comma_joined(values.drop_last()) + seq![p_tv(',')] + values.last()
    }
}

/// Values are joined by commas: two nonempty lists one after the other join as the
/// first, a `,`, then the second.
pub proof fn lemma_comma_joined_join(a: Seq<Seq<TokenView>>, b: Seq<Seq<TokenView>>)
    requires
        a.len() > 0,
        b.len() > 0,
    ensures
        comma_joined(a + b) == comma_joined(a) + seq![p_tv(',')] + comma_joined(b),
    decreases b.len(),
{
    if b.len() == 1 {
        assert((a + b).drop_last() =~= a);
        assert((a + b).last() == b[0]);
    } else {
        lemma_comma_joined_join(a, b.drop_last());
        assert((a + b).drop_last() =~= a + b.drop_last());
        assert((a + b).last() == b.last());
        assert(comma_joined(a + b) =~= comma_joined(a) + seq![p_tv(',')] + comma_joined(b));
    }
}

/// The tokens of `format!("<format>", <values>, <body>)`; with no values,
/// `format!("<format>", <body>)`.
pub open spec fn format_tokens(format: Seq<char>, values: Seq<Seq<TokenView>>, body: Seq<TokenView>) -> Seq<
    TokenView,
> {
    let separator = if values.len() == 0 { Seq::empty() } else { seq![p_tv(',')] };
    seq![
        id_tv("format"@),
        p_tv('!'),
        TokenView::Group(
            Delimiter::Parenthesis,
            seq![TokenView::Literal(string_literal_text(format)), p_tv(',')] + comma_joined(values)
                + separator + body,
        ),
    ]
}

/// The HTML of an element with the attributes `a`, the tag `tag` and the scoped id
/// `id`, whose content is `body`: a reactive element also carries
/// `data-quux-scoped-id` with the scoped id as its value.
pub open spec fn element_html(a: AttributesView, tag: Seq<char>, id: Seq<char>, body: Seq<TokenView>) -> Seq<
    TokenView,
> {
    let keys = if a.reactive { a.keys.push(scoped_id_key()) } else { a.keys };
    let values = if a.reactive {
        a.values.push(seq![TokenView::Literal(string_literal_text(id))])
    } else {
        a.values
    };
    format_tokens(html_format(keys, tag), values, body)
}

/// How many components an item holds, its elements' children included.
pub open spec fn item_components(i: Item) -> nat
    decreases i, 0int,
{
    match i {
        Item::Component(_) => 1,
        Item::Element(e) => match e.children {
            Children::Children(items) => {
                proof {
                    assert(decreases_to!(i => e));
                    assert(decreases_to!(e => e.children));
                    assert(decreases_to!(e.children => items));
                }
                children_components(items, items@.len() as int)
            },
            Children::ReactiveStore(_) => 0,
        },
        Item::Expression(_) => 0,
    }
}

/// How many components the first `n` items of `v` hold.
pub open spec fn children_components(v: Vec<Item>, n: int) -> nat
    decreases v, n,
{
    if n <= 0 || n > v@.len() {
        0
    } else {
        proof {
            assert(decreases_to!(v => v@));
            assert(decreases_to!(v@ => v@[n - 1]));
        }
        children_components(v, n - 1) + item_components(v@[n - 1])
    }
}

/// What the server build makes of `i`, whose first element takes the id `id` and
/// whose first component takes the identifier suffix `suffixes[k]`; with the id and
/// the index of the suffix that come next. A component is constructed and its
/// rendered HTML taken; an expression is turned into a string; an element takes
/// `id`, gathers its children (their elements numbered from the id after `id`) or
/// shows its store (which makes it reactive), and formats its own HTML around that.
pub open spec fn server_item(i: Item, id: u64, k: int, suffixes: Seq<Seq<char>>) -> (DataView, u64, int)
    decreases i, 0int,
{
    match i {
        Item::Component(c) => (
            DataView {
                component_nodes: seq![node_tokens(suffixes[k])],
                component_constructors: seq![
                    constructor_tokens(c.name@, props_view(c.props@), suffixes[k]),
                ],
                html: component_html_tokens(suffixes[k]),
            },
            id,
            k + 1,
        ),
        Item::Element(e) => {
            let a = spec_add_attributes(empty_attributes(), e.attributes@);
            match e.children {
                Children::Children(items) => {
                    proof {
                        assert(decreases_to!(i => e));
                        assert(decreases_to!(e => e.children));
                        assert(decreases_to!(e.children => items));
                    }
                    let (d, last, next_k) = server_children(
                        items,
                        items@.len() as int,
                        next_id(id),
                        k,
                        suffixes,
                    );
                    (
                        DataView {
                            html: element_html(a, e.tag_name@, decimal(id as nat), d.html),
                            ..d
                        },
                        last,
                        next_k,
                    )
                },
                Children::ReactiveStore(store) => (
                    DataView {
                        component_nodes: Seq::empty(),
                        component_constructors: Seq::empty(),
                        html: element_html(
                            AttributesView { reactive: true, ..a },
                            e.tag_name@,
                            decimal(id as nat),
                            store_html(store@),
                        ),
                    },
                    next_id(id),
                    k,
                ),
            }
        },
        Item::Expression(x) => (
            DataView {
                component_nodes: Seq::empty(),
                component_constructors: Seq::empty(),
                html: expression_html(x@),
            },
            id,
            k,
        ),
    }
}

/// What the server build makes of the first `n` items of `v`, in order: their HTML
/// added up behind `String::new()` as `+ &<html>`, their nodes and their
/// constructors; with the id and suffix index that come next.
pub open spec fn server_children(v: Vec<Item>, n: int, id: u64, k: int, suffixes: Seq<Seq<char>>) -> (
    DataView,
    u64,
    int,
)
    decreases v, n,
{
    if n <= 0 || n > v@.len() {
        (
            DataView {
                component_nodes: Seq::empty(),
                component_constructors: Seq::empty(),
                html: new_string_tokens(),
            },
            id,
            k,
        )
    } else {
        proof {
            assert(decreases_to!(v => v@));
            assert(decreases_to!(v@ => v@[n - 1]));
        }
        let (d, id1, k1) = server_children(v, n - 1, id, k, suffixes);
        let (c, id2, k2) = server_item(v@[n - 1], id1, k1, suffixes);
        (
            DataView {
                component_nodes: d.component_nodes + c.component_nodes,
                component_constructors: d.component_constructors + c.component_constructors,
                html: d.html + seq![p_tv('+'), p_tv('&')] + c.html,
            },
            id2,
            k2,
        )
    }
}

/// The suffix index moves on by one for each component.
pub proof fn lemma_item_index(i: Item, id: u64, k: int, suffixes: Seq<Seq<char>>)
    ensures
        server_item(i, id, k, suffixes).2 == k + item_components(i),
    decreases i, 0int,
{
    match i {
        Item::Element(e) => match e.children {
            Children::Children(items) => {
                assert(decreases_to!(i => e));
                assert(decreases_to!(e => e.children));
                assert(decreases_to!(e.children => items));
                lemma_children_index(items, items@.len() as int, next_id(id), k, suffixes);
            },
            Children::ReactiveStore(_) => {},
        },
        _ => {},
    }
}

/// The suffix index moves on by one for each component of the first `n` items.
pub proof fn lemma_children_index(v: Vec<Item>, n: int, id: u64, k: int, suffixes: Seq<Seq<char>>)
    ensures
        server_children(v, n, id, k, suffixes).2 == k + children_components(v, n),
    decreases v, n,
{
    if 0 < n <= v@.len() {
        assert(decreases_to!(v => v@));
        assert(decreases_to!(v@ => v@[n - 1]));
        lemma_children_index(v, n - 1, id, k, suffixes);
        let (_, id1, k1) = server_children(v, n - 1, id, k, suffixes);
        lemma_item_index(v@[n - 1], id1, k1, suffixes);
    }
}

impl Data {
    /// No nodes, no constructors, no HTML.
    pub fn new() -> (d: Data)
        ensures
            d@ == (DataView {
                component_nodes: Seq::empty(),
                component_constructors: Seq::empty(),
                html: Seq::empty(),
            }),
    {
        let d = Data { component_nodes: Vec::new(), component_constructors: Vec::new(), html: Vec::new() };
        assert(d@.component_nodes =~= Seq::<Seq<TokenView>>::empty());
        assert(d@.component_constructors =~= Seq::<Seq<TokenView>>::empty());
        assert(d@.html =~= Seq::<TokenView>::empty());
        d
    }

    /// The HTML becomes the current value of `store`.
    pub fn add_store_data(&mut self, store: &Expr)
        ensures
            final(self)@ == (DataView { html: store_html(store@), ..old(self)@ }),
    {
        let mut arg: Vec<TokenTree> = Vec::new();
        push_p(&mut arg, '&');
        append_tokens(&mut arg, &store.tokens);
        assert(all_tokens_view(arg) =~= seq![p_tv('&')] + store@);
        let mut v: Vec<TokenTree> = Vec::new();
        push_id(&mut v, "shared");
        push_path_sep(&mut v);
        push_id(&mut v, "Store");
        push_path_sep(&mut v);
        push_id(&mut v, "get");
        push_token(&mut v, group(Delimiter::Parenthesis, arg));
        assert(all_tokens_view(v) =~= store_html(store@));
        self.html = v;
    }

    /// The HTML becomes that of an element with the attributes `attributes` and the
    /// tag `tag_name` around the current HTML; a reactive element gets the scoped id
    /// `id`.
    pub fn add_attribute_data(&mut self, attributes: Attributes, tag_name: &str, id: &str)
        requires
            attributes.wf(),
        ensures
            final(self)@ == (DataView {
                html: element_html(attributes@, tag_name@, id@, old(self)@.html),
                ..old(self)@
            }),
    {
        let ghost a = attributes@;
        let mut attributes = attributes;
        attributes.add_scoped_id(id);
        let ghost keys = if a.reactive { a.keys.push(scoped_id_key()) } else { a.keys };
        let ghost values = if a.reactive {
            a.values.push(seq![TokenView::Literal(string_literal_text(id@))])
        } else {
            a.values
        };
        assert(keys_view(attributes.keys@) == keys);
        assert(values_view(attributes.values@) == values);
        let Attributes { keys: key_list, values: value_list, .. } = attributes;
        let format = get_html_string(key_list, tag_name);
        let mut args: Vec<TokenTree> = Vec::new();
        push_token(&mut args, TokenTree::Literal(string_literal(format.as_str())));
        push_p(&mut args, ',');
        let ghost head = all_tokens_view(args);
        let mut i: usize = 0;
        while i < value_list.len()
            invariant
                values == values_view(value_list@),
                i <= value_list@.len(),
                all_tokens_view(args) == head + comma_joined(values.take(i as int)),
            decreases value_list@.len() - i,
        {
            if i > 0 {
                push_p(&mut args, ',');
            }
            append_tokens(&mut args, &value_list[i].tokens);
            let ghost taken = values.take(i + 1);
            assert(taken.drop_last() =~= values.take(i as int));
            assert(taken.last() == value_list@[i as int]@);
            if i == 0 {
                assert(all_tokens_view(args) =~= head + comma_joined(taken));
            } else {
                assert(all_tokens_view(args) =~= head + comma_joined(taken));
            }
            i = i + 1;
        }
        assert(values.take(i as int) =~= values);
        if value_list.len() > 0 {
            push_p(&mut args, ',');
        }
        append_tokens(&mut args, &self.html);
        let ghost separator = if values.len() == 0 { Seq::<TokenView>::empty() } else { seq![p_tv(',')] };
        assert(all_tokens_view(args) =~= seq![
            TokenView::Literal(string_literal_text(html_format(keys, tag_name@))),
            p_tv(','),
        ] + comma_joined(values) + separator + old(self)@.html);
        let mut v: Vec<TokenTree> = Vec::new();
        push_id(&mut v, "format");
        push_p(&mut v, '!');
        push_token(&mut v, group(Delimiter::Parenthesis, args));
        assert(all_tokens_view(v) =~= element_html(a, tag_name@, id@, old(self)@.html));
        self.html = v;
    }

    /// What the server build makes of `item`, as `server_item` says, its first
    /// element taking the id `id` and its first component the suffix `suffixes[k]`.
    pub fn from_item(item: Item, id: u64, k: usize, suffixes: &Vec<String>) -> (r: (Data, u64, usize))
        requires
            k + item_components(item) <= suffixes@.len(),
        ensures
            (r.0@, r.1, r.2 as int) == server_item(item, id, k as int, strings_view(suffixes@)),
        decreases item, 1int,
    {
        let ghost whole = item;
        match item {
            Item::Component(component) => {
                let total = suffixes.len();
                let suffix = suffixes[k].as_str();
                let built = constructor(&component, suffix);
                let mut data = Data::new();
                data.component_nodes.push(node(suffix));
                data.component_constructors.push(built);
                data.html = component_html(suffix);
                assert(data@.component_nodes =~= seq![node_tokens(suffixes@[k as int]@)]);
                assert(data@.component_constructors =~= seq![
                    constructor_tokens(component.name@, props_view(component.props@), suffixes@[k as int]@),
                ]);
                assert(k + 1 <= total);
                (data, id, k + 1)
            },
            Item::Element(element) => {
                proof {
                    assert(decreases_to!(whole => element));
                }
                Data::from_element(element, id, k, suffixes)
            },
            Item::Expression(x) => {
                let mut data = Data::new();
                append_tokens(&mut data.html, &x.tokens);
                push_p(&mut data.html, '.');
                push_id(&mut data.html, "to_string");
                push_token(&mut data.html, unit_token());
                assert(data@.html =~= expression_html(x@));
                (data, id, k)
            },
        }
    }

    /// What the server build makes of `element`, which takes the id `id`.
    pub fn from_element(element: Element, id: u64, k: usize, suffixes: &Vec<String>) -> (r: (
        Data,
        u64,
        usize,
    ))
        requires
            k + item_components(Item::Element(element)) <= suffixes@.len(),
        ensures
            (r.0@, r.1, r.2 as int) == server_item(
                Item::Element(element),
                id,
                k as int,
                strings_view(suffixes@),
            ),
        decreases element, 0int,
    {
        let ghost whole = element;
        let Element { tag_name, attributes, children } = element;
        let ghost list = attributes@;
        let mut attrs = Attributes::from_attributes(attributes);
        let mut text = String::new();
        push_decimal(&mut text, id);
        let next = bump(id);
        match children {
            Children::Children(items) => {
                proof {
                    assert(decreases_to!(whole => whole.children));
                }
                let mut data = Data::new();
                let (last, next_k) = data.add_child_data(items, next, k, suffixes);
                data.add_attribute_data(attrs, tag_name.as_str(), text.as_str());
                (data, last, next_k)
            },
            Children::ReactiveStore(store) => {
                attrs.reactive = true;
                let mut data = Data::new();
                data.add_store_data(&store);
                data.add_attribute_data(attrs, tag_name.as_str(), text.as_str());
                assert(data@.component_nodes =~= Seq::<Seq<TokenView>>::empty());
                (data, next, k)
            },
        }
    }

    /// Adds the nodes and constructors of `children`, in order, and makes the HTML
    /// theirs added up behind `String::new()`; their elements are numbered from `id`
    /// on and their components take the suffixes from `suffixes[k]` on.
    pub fn add_child_data(&mut self, children: Vec<Item>, id: u64, k: usize, suffixes: &Vec<String>) -> (r: (
        u64,
        usize,
    ))
        requires
            k + children_components(children, children@.len() as int) <= suffixes@.len(),
        ensures
            ({
                let (d, last, next_k) = server_children(
                    children,
                    children@.len() as int,
                    id,
                    k as int,
                    strings_view(suffixes@),
                );
                &&& final(self)@ == (DataView {
                    component_nodes: old(self)@.component_nodes + d.component_nodes,
                    component_constructors: old(self)@.component_constructors + d.component_constructors,
                    html: d.html,
                })
                &&& r.0 == last
                &&& r.1 == next_k
            }),
        decreases children, 0int,
    {
        let ghost all = children;
        let ghost start = self@;
        let ghost names = strings_view(suffixes@);
        let n = children.len();
        let mut rest = children;
        let mut html: Vec<TokenTree> = Vec::new();
        push_id(&mut html, "String");
        push_path_sep(&mut html);
        push_id(&mut html, "new");
        push_token(&mut html, unit_token());
        assert(all_tokens_view(html) =~= new_string_tokens());
        self.html = html;
        let mut next = id;
        let mut kk = k;
        let mut i: usize = 0;
        assert(rest@ =~= all@.skip(0));
        assert(self@.component_nodes =~= start.component_nodes + Seq::<Seq<TokenView>>::empty());
        assert(self@.component_constructors =~= start.component_constructors + Seq::<Seq<TokenView>>::empty());
        proof {
            lemma_children_index(all, n as int, id, k as int, names);
        }
        while i < n
            invariant
                n == all@.len(),
                all == children,
                i <= n,
                rest@ == all@.skip(i as int),
                names == strings_view(suffixes@),
                k + children_components(all, n as int) <= suffixes@.len(),
                ({
                    let (d, last, next_k) = server_children(all, i as int, id, k as int, names);
                    &&& self@ == (DataView {
                        component_nodes: start.component_nodes + d.component_nodes,
                        component_constructors: start.component_constructors + d.component_constructors,
                        html: d.html,
                    })
                    &&& next == last
                    &&& kk == next_k
                }),
            decreases n - i,
        {
            let ghost i0 = i as int;
            let ghost prior = self@;
            let item = rest.remove(0);
            assert(item == all@[i as int]);
            assert(rest@ =~= all@.skip(i + 1));
            proof {
                assert(decreases_to!(all => all@));
                assert(decreases_to!(all@ => all@[i as int]));
                lemma_children_index(all, i as int, id, k as int, names);
                lemma_children_index(all, i + 1, id, k as int, names);
                lemma_children_prefix(all, i + 1, n as int);
                let (_, id1, k1) = server_children(all, i as int, id, k as int, names);
                lemma_item_index(all@[i as int], id1, k1, names);
            }
            assert(decreases_to!(all => item));
            let (child, after, after_k) = Data::from_item(item, next, kk, suffixes);
            let ghost before = self@;
            let Data { component_nodes: mut nodes, component_constructors: mut built, html: child_html } = child;
            let ghost nodes_v = nodes@;
            let ghost built_v = built@;
            let ghost own_nodes = self.component_nodes@;
            let ghost own_built = self.component_constructors@;
            self.component_nodes.append(&mut nodes);
            self.component_constructors.append(&mut built);
            assert(blocks_view(own_nodes + nodes_v) =~= blocks_view(own_nodes) + blocks_view(nodes_v));
            assert(blocks_view(own_built + built_v) =~= blocks_view(own_built) + blocks_view(built_v));
            push_p(&mut self.html, '+');
            push_p(&mut self.html, '&');
            append_tokens(&mut self.html, &child_html);
            proof {
                let (d0, id1, k1) = server_children(all, i0, id, k as int, names);
                let (c, id2, k2) = server_item(all@[i0], id1, k1, names);
                assert(server_children(all, i0 + 1, id, k as int, names) == (
                    DataView {
                        component_nodes: d0.component_nodes + c.component_nodes,
                        component_constructors: d0.component_constructors + c.component_constructors,
                        html: d0.html + seq![p_tv('+'), p_tv('&')] + c.html,
                    },
                    id2,
                    k2,
                ));
                assert(self@.component_nodes =~= start.component_nodes + (d0.component_nodes
                    + c.component_nodes));
                assert(self@.component_constructors =~= start.component_constructors + (
                d0.component_constructors + c.component_constructors));
                assert(self@.html =~= d0.html + seq![p_tv('+'), p_tv('&')] + c.html);
            }
            next = after;
            kk = after_k;
            i = i + 1;
        }
        (next, kk)
    }
}

/// The components of a prefix are no more than those of a longer prefix.
pub proof fn lemma_children_prefix(v: Vec<Item>, m: int, n: int)
    requires
        0 <= m <= n <= v@.len(),
    ensures
        children_components(v, m) <= children_components(v, n),
    decreases n - m,
{
    if m < n {
        lemma_children_prefix(v, m, n - 1);
    }
}

/// The nodes, with `,` between two of them.
pub open spec fn nodes_joined(nodes: Seq<Seq<TokenView>>) -> Seq<TokenView> {
    comma_joined(nodes)
}

/// The statements, one after the other.
pub open spec fn concatenated(blocks: Seq<Seq<TokenView>>) -> Seq<TokenView>
    decreases blocks.len(),
{
    if blocks.len() == 0 {
        Seq::empty()
    } else {
        concatenated(blocks.drop_last()) + blocks.last()
    }
}

/// The server code of a view whose data is `d`: `let scope_id = context.id;`, the
/// constructors, then `shared::RenderData { html: <html>, component_node:
/// shared::ClientComponentNode { component:
/// shared::SerializePostcard::serialize_bytes(self), render_context:
/// shared::RenderContext { id: scope_id, children: vec![<nodes>], } } }`.
pub open spec fn server_tokens(d: DataView) -> Seq<TokenView> {
    let context = seq![id_tv("id"@), p_tv(':'), id_tv("scope_id"@), p_tv(','), id_tv("children"@), p_tv(':'),
        id_tv("vec"@), p_tv('!'), TokenView::Group(Delimiter::Bracket, nodes_joined(d.component_nodes)),
        p_tv(',')];
    let node = seq![id_tv("component"@), p_tv(':'), id_tv("shared"@)] + path_sep() + seq![
        id_tv("SerializePostcard"@),
    ] + path_sep() + seq![
        id_tv("serialize_bytes"@),
        TokenView::Group(Delimiter::Parenthesis, seq![id_tv("self"@)]),
        p_tv(','),
        id_tv("render_context"@),
        p_tv(':'),
        id_tv("shared"@),
    ] + path_sep() + seq![id_tv("RenderContext"@), TokenView::Group(Delimiter::Brace, context)];
    let data = seq![id_tv("html"@), p_tv(':')] + d.html + seq![
        p_tv(','),
        id_tv("component_node"@),
        p_tv(':'),
        id_tv("shared"@),
    ] + path_sep() + seq![id_tv("ClientComponentNode"@), TokenView::Group(Delimiter::Brace, node)];
    seq![
        id_tv("let"@),
        id_tv("scope_id"@),
        p_tv('='),
        id_tv("context"@),
        p_tv('.'),
        id_tv("id"@),
        p_tv(';'),
    ] + concatenated(d.component_constructors) + seq![id_tv("shared"@)] + path_sep() + seq![
        id_tv("RenderData"@),
        TokenView::Group(Delimiter::Brace, data),
    ]
}

/// The attribute `data-quux-scope-id = scope_id` that the root element of a view
/// carries.
pub open spec fn is_scope_attribute(a: Attribute) -> bool {
    &&& a.key@ == "data-quux-scope-id"@
    &&& a.value matches AttributeValue::Static(e) && e@ == seq![id_tv("scope_id"@)]
}

/// The attribute `data-quux-scope-id = scope_id`.
fn scope_attribute() -> (a: Attribute)
    ensures
        is_scope_attribute(a),
{
    let mut tokens: Vec<TokenTree> = Vec::new();
    push_id(&mut tokens, "scope_id");
    assert(all_tokens_view(tokens) =~= seq![id_tv("scope_id"@)]);
    Attribute {
        key: String::from_str("data-quux-scope-id"),
        value: AttributeValue::Static(Expr { tokens }),
    }
}

/// The server code of the view `tree`: its root element also carries
/// `data-quux-scope-id = scope_id`; its elements are numbered from `id` on and its
/// components take the suffixes of `suffixes` in order.
pub fn generate(tree: Element, id: u64, suffixes: &Vec<String>) -> (r: Vec<TokenTree>)
    requires
        item_components(Item::Element(tree)) <= suffixes@.len(),
    ensures
        exists|root: Element|
            {
                &&& root.tag_name == tree.tag_name
                &&& root.children == tree.children
                &&& root.attributes@.len() == tree.attributes@.len() + 1
                &&& root.attributes@.drop_last() == tree.attributes@
                &&& is_scope_attribute(root.attributes@.last())
                &&& all_tokens_view(r) == server_tokens(
                    server_item(Item::Element(root), id, 0, strings_view(suffixes@)).0,
                )
            },
{
    let mut root = tree;
    let ghost before = root.attributes@;
    root.attributes.push(scope_attribute());
    proof {
        assert(root.attributes@.drop_last() =~= before);
        assert(item_components(Item::Element(root)) == item_components(Item::Element(tree)));
    }
    let ghost kept = root;
    let (data, _, _) = Data::from_element(root, id, 0, suffixes);
    let ghost d = data@;
    let Data { component_nodes, component_constructors, html } = data;
    let mut v: Vec<TokenTree> = Vec::new();
    push_id(&mut v, "let");
    push_id(&mut v, "scope_id");
    push_p(&mut v, '=');
    push_id(&mut v, "context");
    push_p(&mut v, '.');
    push_id(&mut v, "id");
    push_p(&mut v, ';');
    let ghost head = all_tokens_view(v);
    let mut i: usize = 0;
    while i < component_constructors.len()
        invariant
            i <= component_constructors@.len(),
            d.component_constructors == blocks_view(component_constructors@),
            all_tokens_view(v) == head + concatenated(d.component_constructors.take(i as int)),
        decreases component_constructors@.len() - i,
    {
        append_tokens(&mut v, &component_constructors[i]);
        assert(d.component_constructors.take(i + 1).drop_last() =~= d.component_constructors.take(
            i as int,
        ));
        i = i + 1;
    }
    assert(d.component_constructors.take(i as int) =~= d.component_constructors);
    let mut nodes: Vec<TokenTree> = Vec::new();
    let mut j: usize = 0;
    while j < component_nodes.len()
        invariant
            j <= component_nodes@.len(),
            d.component_nodes == blocks_view(component_nodes@),
            all_tokens_view(nodes) == comma_joined(d.component_nodes.take(j as int)),
        decreases component_nodes@.len() - j,
    {
        if j > 0 {
            push_p(&mut nodes, ',');
        }
        append_tokens(&mut nodes, &component_nodes[j]);
        let ghost taken = d.component_nodes.take(j + 1);
        assert(taken.drop_last() =~= d.component_nodes.take(j as int));
        if j == 0 {
            assert(all_tokens_view(nodes) =~= comma_joined(taken));
        } else {
            assert(all_tokens_view(nodes) =~= comma_joined(taken));
        }
        j = j + 1;
    }
    assert(d.component_nodes.take(j as int) =~= d.component_nodes);
    let ghost nodes_v = all_tokens_view(nodes);
    let mut context: Vec<TokenTree> = Vec::new();
    push_id(&mut context, "id");
    push_p(&mut context, ':');
    push_id(&mut context, "scope_id");
    push_p(&mut context, ',');
    push_id(&mut context, "children");
    push_p(&mut context, ':');
    push_id(&mut context, "vec");
    push_p(&mut context, '!');
    push_token(&mut context, group(Delimiter::Bracket, nodes));
    push_p(&mut context, ',');
    let ghost context_v = all_tokens_view(context);
    let mut this: Vec<TokenTree> = Vec::new();
    push_id(&mut this, "self");
    assert(all_tokens_view(this) =~= seq![id_tv("self"@)]);
    let mut node: Vec<TokenTree> = Vec::new();
    push_id(&mut node, "component");
    push_p(&mut node, ':');
    push_id(&mut node, "shared");
    push_path_sep(&mut node);
    push_id(&mut node, "SerializePostcard");
    push_path_sep(&mut node);
    push_id(&mut node, "serialize_bytes");
    push_token(&mut node, group(Delimiter::Parenthesis, this));
    push_p(&mut node, ',');
    push_id(&mut node, "render_context");
    push_p(&mut node, ':');
    push_id(&mut node, "shared");
    push_path_sep(&mut node);
    push_id(&mut node, "RenderContext");
    push_token(&mut node, group(Delimiter::Brace, context));
    let ghost node_v = all_tokens_view(node);
    let mut fields: Vec<TokenTree> = Vec::new();
    push_id(&mut fields, "html");
    push_p(&mut fields, ':');
    append_tokens(&mut fields, &html);
    push_p(&mut fields, ',');
    push_id(&mut fields, "component_node");
    push_p(&mut fields, ':');
    push_id(&mut fields, "shared");
    push_path_sep(&mut fields);
    push_id(&mut fields, "ClientComponentNode");
    push_token(&mut fields, group(Delimiter::Brace, node));
    let ghost fields_v = all_tokens_view(fields);
    let ghost body = all_tokens_view(v);
    push_id(&mut v, "shared");
    push_path_sep(&mut v);
    push_id(&mut v, "RenderData");
    push_token(&mut v, group(Delimiter::Brace, fields));
    proof {
        assert(context_v =~= seq![id_tv("id"@), p_tv(':'), id_tv("scope_id"@), p_tv(','), id_tv("children"@),
            p_tv(':'), id_tv("vec"@), p_tv('!'), TokenView::Group(Delimiter::Bracket,
            nodes_joined(d.component_nodes)), p_tv(',')]);
        assert(node_v =~= seq![id_tv("component"@), p_tv(':'), id_tv("shared"@)] + path_sep() + seq![
            id_tv("SerializePostcard"@),
        ] + path_sep() + seq![
            id_tv("serialize_bytes"@),
            TokenView::Group(Delimiter::Parenthesis, seq![id_tv("self"@)]),
            p_tv(','),
            id_tv("render_context"@),
            p_tv(':'),
            id_tv("shared"@),
        ] + path_sep() + seq![id_tv("RenderContext"@), TokenView::Group(Delimiter::Brace, context_v)]);
        assert(fields_v =~= seq![id_tv("html"@), p_tv(':')] + d.html + seq![
            p_tv(','),
            id_tv("component_node"@),
            p_tv(':'),
            id_tv("shared"@),
        ] + path_sep() + seq![id_tv("ClientComponentNode"@), TokenView::Group(Delimiter::Brace, node_v)]);
        assert(all_tokens_view(v) =~= server_tokens(d));
    }
    v
}

/// Both builds number the elements of a view alike: from the same first id, the
/// server build and the client build take as many ids for an item, so each element
/// gets the same id, and so the same scoped id, on both sides.
pub proof fn lemma_same_numbering(i: Item, id: u64, k: int, suffixes: Seq<Seq<char>>)
    ensures
        server_item(i, id, k, suffixes).1 == spec_item_data(item_view(i), id).1,
    decreases i, 0int,
{
    match i {
        Item::Element(e) => match e.children {
            Children::Children(items) => {
                assert(decreases_to!(i => e));
                assert(decreases_to!(e => e.children));
                assert(decreases_to!(e.children => items));
                let d = crate::html::client::spec_add_event_data(
                    ClientDataView { scoped_id: decimal(id as nat), ..crate::html::client::empty_data() },
                    crate::html::parse::attributes_view(e.attributes@),
                );
                lemma_children_numbering(items, items@.len() as int, next_id(id), k, suffixes, d);
            },
            Children::ReactiveStore(_) => {},
        },
        _ => {},
    }
}

/// Both builds take as many ids for the first `n` items of `v`.
pub proof fn lemma_children_numbering(
    v: Vec<Item>,
    n: int,
    id: u64,
    k: int,
    suffixes: Seq<Seq<char>>,
    d: ClientDataView,
)
    requires
        0 <= n <= v@.len(),
    ensures
        server_children(v, n, id, k, suffixes).1 == spec_add_child_data(d, items_view(v, n), id).1,
    decreases v, n,
{
    if n > 0 {
        assert(decreases_to!(v => v@));
        assert(decreases_to!(v@ => v@[n - 1]));
        lemma_children_numbering(v, n - 1, id, k, suffixes, d);
        assert(items_view(v, n).drop_last() =~= items_view(v, n - 1));
        let (_, id1, k1) = server_children(v, n - 1, id, k, suffixes);
        lemma_same_numbering(v@[n - 1], id1, k1, suffixes);
    }
}

/// How many components `item` holds, as `item_components` says; `None` when that
/// is more than a `usize` holds.
pub fn component_count(item: &Item) -> (r: Option<usize>)
    ensures
        match r {
            Some(n) => n == item_components(*item),
            None => item_components(*item) > usize::MAX,
        },
    decreases item, 1int,
{
    match item {
        Item::Component(_) => Some(1),
        Item::Element(element) => {
            proof {
                assert(decreases_to!(item => element));
            }
            element_component_count(element)
        },
        Item::Expression(_) => Some(0),
    }
}

/// How many components `element` holds, as `item_components` says; `None` when
/// that is more than a `usize` holds.
pub fn element_component_count(element: &Element) -> (r: Option<usize>)
    ensures
        match r {
            Some(n) => n == item_components(Item::Element(*element)),
            None => item_components(Item::Element(*element)) > usize::MAX,
        },
    decreases element, 0int,
{
    match &element.children {
        Children::Children(items) => {
            proof {
                assert(decreases_to!(element => element.children));
                assert(decreases_to!(element.children => items));
            }
            let mut total: usize = 0;
            let mut i: usize = 0;
            while i < items.len()
                invariant
                    element.children == Children::Children(*items),
                    decreases_to!(*element => *items),
                    i <= items@.len(),
                    total == children_components(*items, i as int),
                decreases items@.len() - i,
            {
                proof {
                    assert(decreases_to!(items => items@));
                    assert(decreases_to!(items@ => items@[i as int]));
                    lemma_children_prefix(*items, i + 1, items@.len() as int);
                }
                match component_count(&items[i]) {
                    Some(n) => {
                        match total.checked_add(n) {
                            Some(sum) => {
                                total = sum;
                            },
                            None => {
                                proof {
                                    lemma_children_prefix(*items, i + 1, items@.len() as int);
                                }
                                return None;
                            },
                        }
                    },
                    None => {
                        proof {
                            lemma_children_prefix(*items, i + 1, items@.len() as int);
                        }
                        return None;
                    },
                }
                i = i + 1;
            }
            Some(total)
        },
        Children::ReactiveStore(_) => Some(0),
    }
}

} // verus!
