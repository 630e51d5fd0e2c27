//! The HTML that the server renders for an element of a view, its items, stores
//! and components.

use vstd::prelude::*;
use crate::macros::{id_tv, p_tv, push_id, push_p};
use crate::html::client::{unit_token, unit_tv};
use crate::tokens::{
    all_tokens_view, append_tokens, group, path_sep, push_path_sep, push_token, Delimiter,
    Spacing, TokenTree, TokenView,
};
use crate::view::generate::client::id_literal;
use crate::view::generate::server::{
    attributes_new, is_self_closing, is_self_closing_name, lemma_self_closing_is_void, void_elements, reactive_pairs, scoped_entries,
    spec_hashmap_tokens, static_pairs, u64_literal,
};
use crate::view::parse::element::attributes::{get_call, Attributes};
use crate::view::parse::grammar::{Children, Component, Element, If, Item};
use crate::text::lowercase;
use crate::tokens::{string_literal, string_literal_text};

verus! {

/// The tokens of `<name as quux::component::Component>`.
pub open spec fn component_trait(name: Seq<TokenView>) -> Seq<TokenView> {
    seq![p_tv('<')] + name + seq![id_tv("as"@), id_tv("quux"@)] + path_sep() + seq![id_tv("component"@)]
        + path_sep() + seq![id_tv("Component"@), p_tv('>')]
}

/// The tokens of the loop id a component is rendered with: `Some(<id>u64)` or
/// `None`.
pub open spec fn for_loop_id_tokens(id: Option<u64>) -> Seq<TokenView> {
    match id {
        Some(n) => seq![
            id_tv("Some"@),
            TokenView::Group(Delimiter::Parenthesis, seq![id_literal(n)]),
        ],
        None => seq![id_tv("None"@)],
    }
}

/// `let component = <name as quux::component::Component>::init(<props>);
/// component_id += 1; let id = component_id;`
pub open spec fn init_tokens(name: Seq<TokenView>, props: Seq<TokenView>) -> Seq<TokenView> {
    seq![id_tv("let"@), id_tv("component"@), p_tv('=')] + component_trait(name) + path_sep() + seq![
        id_tv("init"@),
        TokenView::Group(Delimiter::Parenthesis, props),
        p_tv(';'),
        id_tv("component_id"@),
        TokenView::Punct('+', Spacing::Joint),
        p_tv('='),
        TokenView::Literal("1"@),
        p_tv(';'),
        id_tv("let"@),
        id_tv("id"@),
        p_tv('='),
        id_tv("component_id"@),
        p_tv(';'),
    ]
}

/// `let render_context = quux::render::Context { id: id.clone(), for_loop_id:
/// <loop id>, ..Default::default() };`
pub open spec fn context_tokens(for_loop_id: Option<u64>) -> Seq<TokenView> {
    seq![id_tv("let"@), id_tv("render_context"@), p_tv('='), id_tv("quux"@)] + path_sep() + seq![
        id_tv("render"@),
    ] + path_sep() + seq![
        id_tv("Context"@),
        TokenView::Group(
            Delimiter::Brace,
            seq![
                id_tv("id"@),
                p_tv(':'),
                id_tv("id"@),
                p_tv('.'),
                id_tv("clone"@),
                unit_tv(),
                p_tv(','),
                id_tv("for_loop_id"@),
                p_tv(':'),
            ] + for_loop_id_tokens(for_loop_id) + seq![
                p_tv(','),
                TokenView::Punct('.', Spacing::Joint),
                p_tv('.'),
                id_tv("Default"@),
            ] + path_sep() + seq![id_tv("default"@), unit_tv()],
        ),
        p_tv(';'),
    ]
}

/// `let rendered_component = quux::component::Component::render(&component,
/// std::clone::Clone::clone(&render_context));`
pub open spec fn render_tokens() -> Seq<TokenView> {
    seq![id_tv("let"@), id_tv("rendered_component"@), p_tv('='), id_tv("quux"@)] + path_sep() + seq![
        id_tv("component"@),
    ] + path_sep() + seq![id_tv("Component"@)] + path_sep() + seq![
        id_tv("render"@),
        TokenView::Group(
            Delimiter::Parenthesis,
            seq![p_tv('&'), id_tv("component"@), p_tv(','), id_tv("std"@)] + path_sep() + seq![
                id_tv("clone"@),
            ] + path_sep() + seq![id_tv("Clone"@)] + path_sep() + seq![
                id_tv("clone"@),
                TokenView::Group(Delimiter::Parenthesis, seq![p_tv('&'), id_tv("render_context"@)]),
            ],
        ),
        p_tv(';'),
    ]
}

/// `components.push(quux::render::ClientComponentNode { component:
/// Self::ComponentEnum::from(component.clone()), render_context:
/// rendered_component.component_node.render_context.clone(), });
/// rendered_component.html`
pub open spec fn push_node_tokens() -> Seq<TokenView> {
    let fields = seq![id_tv("component"@), p_tv(':'), id_tv("Self"@)] + path_sep() + seq![
        id_tv("ComponentEnum"@),
    ] + path_sep() + seq![
        id_tv("from"@),
        TokenView::Group(
            Delimiter::Parenthesis,
            seq![id_tv("component"@), p_tv('.'), id_tv("clone"@), unit_tv()],
        ),
        p_tv(','),
        id_tv("render_context"@),
        p_tv(':'),
        id_tv("rendered_component"@),
        p_tv('.'),
        id_tv("component_node"@),
        p_tv('.'),
        id_tv("render_context"@),
        p_tv('.'),
        id_tv("clone"@),
        unit_tv(),
        p_tv(','),
    ];
    seq![
        id_tv("components"@),
        p_tv('.'),
        id_tv("push"@),
        TokenView::Group(
            Delimiter::Parenthesis,
            seq![id_tv("quux"@)] + path_sep() + seq![id_tv("render"@)] + path_sep() + seq![
                id_tv("ClientComponentNode"@),
                TokenView::Group(Delimiter::Brace, fields),
            ],
        ),
        p_tv(';'),
        id_tv("rendered_component"@),
        p_tv('.'),
        id_tv("html"@),
    ]
}

/// The HTML of a component in a view: a block that makes the component, gives it
/// the next component id, renders it, records its node among the view's
/// components, and yields its HTML.
pub open spec fn component_html(name: Seq<TokenView>, props: Seq<TokenView>, for_loop_id: Option<u64>) -> Seq<
    TokenView,
> {
    seq![
        TokenView::Group(
            Delimiter::Brace,
            init_tokens(name, props) + context_tokens(for_loop_id) + render_tokens() + push_node_tokens(),
        ),
    ]
}

/// The tokens of `init_tokens`.
#[verifier::rlimit(40)]
fn push_init(v: &mut Vec<TokenTree>, c: &Component)
    ensures
        all_tokens_view(*final(v)) == all_tokens_view(*old(v)) + init_tokens(c.name@, c.props.0@),
{
    let ghost start = all_tokens_view(*v);
    let mut props: Vec<TokenTree> = Vec::new();
    append_tokens(&mut props, &c.props.0.tokens);
    assert(all_tokens_view(props) =~= c.props.0@);
    push_id(v, "let");
    push_id(v, "component");
    push_p(v, '=');
    push_p(v, '<');
    append_tokens(v, &c.name.tokens);
    push_id(v, "as");
    push_id(v, "quux");
    push_path_sep(v);
    push_id(v, "component");
    push_path_sep(v);
    push_id(v, "Component");
    push_p(v, '>');
    push_path_sep(v);
    push_id(v, "init");
    push_token(v, group(Delimiter::Parenthesis, props));
    push_p(v, ';');
    push_id(v, "component_id");
    push_token(v, TokenTree::Punct('+', Spacing::Joint));
    push_p(v, '=');
    push_token(v, TokenTree::Literal(String::from_str("1")));
    push_p(v, ';');
    push_id(v, "let");
    push_id(v, "id");
    push_p(v, '=');
    push_id(v, "component_id");
    push_p(v, ';');
    assert(all_tokens_view(*v) =~= start + init_tokens(c.name@, c.props.0@));
}

/// The tokens of `context_tokens`.
fn push_context(v: &mut Vec<TokenTree>, for_loop_id: Option<u64>)
    ensures
        all_tokens_view(*final(v)) == all_tokens_view(*old(v)) + context_tokens(for_loop_id),
{
    let ghost start = all_tokens_view(*v);
    let mut fields: Vec<TokenTree> = Vec::new();
    push_id(&mut fields, "id");
    push_p(&mut fields, ':');
    push_id(&mut fields, "id");
    push_p(&mut fields, '.');
    push_id(&mut fields, "clone");
    push_token(&mut fields, unit_token());
    push_p(&mut fields, ',');
    push_id(&mut fields, "for_loop_id");
    push_p(&mut fields, ':');
    let ghost head = all_tokens_view(fields);
    match for_loop_id {
        Some(n) => {
            let mut lit: Vec<TokenTree> = Vec::new();
            push_token(&mut lit, TokenTree::Literal(u64_literal(n)));
            assert(all_tokens_view(lit) =~= seq![id_literal(n)]);
            push_id(&mut fields, "Some");
            push_token(&mut fields, group(Delimiter::Parenthesis, lit));
        },
        None => {
            push_id(&mut fields, "None");
        },
    }
    assert(all_tokens_view(fields) =~= head + for_loop_id_tokens(for_loop_id));
    push_p(&mut fields, ',');
    push_token(&mut fields, TokenTree::Punct('.', Spacing::Joint));
    push_p(&mut fields, '.');
    push_id(&mut fields, "Default");
    push_path_sep(&mut fields);
    push_id(&mut fields, "default");
    push_token(&mut fields, unit_token());
    let ghost fields_v = all_tokens_view(fields);
    assert(fields_v =~= seq![
        id_tv("id"@),
        p_tv(':'),
        id_tv("id"@),
        p_tv('.'),
        id_tv("clone"@),
        unit_tv(),
        p_tv(','),
        id_tv("for_loop_id"@),
        p_tv(':'),
    ] + for_loop_id_tokens(for_loop_id) + seq![
        p_tv(','),
        TokenView::Punct('.', Spacing::Joint),
        p_tv('.'),
        id_tv("Default"@),
    ] + path_sep() + seq![id_tv("default"@), unit_tv()]);
    push_id(v, "let");
    push_id(v, "render_context");
    push_p(v, '=');
    push_id(v, "quux");
    push_path_sep(v);
    push_id(v, "render");
    push_path_sep(v);
    push_id(v, "Context");
    push_token(v, group(Delimiter::Brace, fields));
    push_p(v, ';');
    assert(all_tokens_view(*v) =~= start + context_tokens(for_loop_id));
}

/// The tokens of `render_tokens`.
fn push_render(v: &mut Vec<TokenTree>)
    ensures
        all_tokens_view(*final(v)) == all_tokens_view(*old(v)) + render_tokens(),
{
    let ghost start = all_tokens_view(*v);
    let mut borrowed: Vec<TokenTree> = Vec::new();
    push_p(&mut borrowed, '&');
    push_id(&mut borrowed, "render_context");
    assert(all_tokens_view(borrowed) =~= seq![p_tv('&'), id_tv("render_context"@)]);
    let mut args: Vec<TokenTree> = Vec::new();
    push_p(&mut args, '&');
    push_id(&mut args, "component");
    push_p(&mut args, ',');
    push_id(&mut args, "std");
    push_path_sep(&mut args);
    push_id(&mut args, "clone");
    push_path_sep(&mut args);
    push_id(&mut args, "Clone");
    push_path_sep(&mut args);
    push_id(&mut args, "clone");
    push_token(&mut args, group(Delimiter::Parenthesis, borrowed));
    assert(all_tokens_view(args) =~= seq![p_tv('&'), id_tv("component"@), p_tv(','), id_tv("std"@)]
        + path_sep() + seq![id_tv("clone"@)] + path_sep() + seq![id_tv("Clone"@)] + path_sep() + seq![
        id_tv("clone"@),
        TokenView::Group(Delimiter::Parenthesis, seq![p_tv('&'), id_tv("render_context"@)]),
    ]);
    push_id(v, "let");
    push_id(v, "rendered_component");
    push_p(v, '=');
    push_id(v, "quux");
    push_path_sep(v);
    push_id(v, "component");
    push_path_sep(v);
    push_id(v, "Component");
    push_path_sep(v);
    push_id(v, "render");
    push_token(v, group(Delimiter::Parenthesis, args));
    push_p(v, ';');
    assert(all_tokens_view(*v) =~= start + render_tokens());
}

/// The tokens of `push_node_tokens`.
fn push_node(v: &mut Vec<TokenTree>)
    ensures
        all_tokens_view(*final(v)) == all_tokens_view(*old(v)) + push_node_tokens(),
{
    let ghost start = all_tokens_view(*v);
    let mut cloned: Vec<TokenTree> = Vec::new();
    push_id(&mut cloned, "component");
    push_p(&mut cloned, '.');
    push_id(&mut cloned, "clone");
    push_token(&mut cloned, unit_token());
    assert(all_tokens_view(cloned) =~= seq![
        id_tv("component"@),
        p_tv('.'),
        id_tv("clone"@),
        unit_tv(),
    ]);
    let mut fields: Vec<TokenTree> = Vec::new();
    push_id(&mut fields, "component");
    push_p(&mut fields, ':');
    push_id(&mut fields, "Self");
    push_path_sep(&mut fields);
    push_id(&mut fields, "ComponentEnum");
    push_path_sep(&mut fields);
    push_id(&mut fields, "from");
    push_token(&mut fields, group(Delimiter::Parenthesis, cloned));
    push_p(&mut fields, ',');
    push_id(&mut fields, "render_context");
    push_p(&mut fields, ':');
    push_id(&mut fields, "rendered_component");
    push_p(&mut fields, '.');
    push_id(&mut fields, "component_node");
    push_p(&mut fields, '.');
    push_id(&mut fields, "render_context");
    push_p(&mut fields, '.');
    push_id(&mut fields, "clone");
    push_token(&mut fields, unit_token());
    push_p(&mut fields, ',');
    let ghost fields_v = all_tokens_view(fields);
    let mut node: Vec<TokenTree> = Vec::new();
    push_id(&mut node, "quux");
    push_path_sep(&mut node);
    push_id(&mut node, "render");
    push_path_sep(&mut node);
    push_id(&mut node, "ClientComponentNode");
    push_token(&mut node, group(Delimiter::Brace, fields));
    let ghost node_v = all_tokens_view(node);
    push_id(v, "components");
    push_p(v, '.');
    push_id(v, "push");
    push_token(v, group(Delimiter::Parenthesis, node));
    push_p(v, ';');
    push_id(v, "rendered_component");
    push_p(v, '.');
    push_id(v, "html");
    proof {
        let fields_s = seq![id_tv("component"@), p_tv(':'), id_tv("Self"@)] + path_sep() + seq![
            id_tv("ComponentEnum"@),
        ] + path_sep() + seq![
            id_tv("from"@),
            TokenView::Group(
                Delimiter::Parenthesis,
                seq![id_tv("component"@), p_tv('.'), id_tv("clone"@), unit_tv()],
            ),
            p_tv(','),
            id_tv("render_context"@),
            p_tv(':'),
            id_tv("rendered_component"@),
            p_tv('.'),
            id_tv("component_node"@),
            p_tv('.'),
            id_tv("render_context"@),
            p_tv('.'),
            id_tv("clone"@),
            unit_tv(),
            p_tv(','),
        ];
        assert(fields_v =~= fields_s);
        assert(node_v =~= seq![id_tv("quux"@)] + path_sep() + seq![id_tv("render"@)] + path_sep() + seq![
            id_tv("ClientComponentNode"@),
            TokenView::Group(Delimiter::Brace, fields_s),
        ]);
        assert(all_tokens_view(*v) =~= start + push_node_tokens());
    }
}

/// The HTML of the component `c`, as `component_html` says.
pub fn component_html_code(c: &Component) -> (r: Vec<TokenTree>)
    ensures
        all_tokens_view(r) == component_html(c.name@, c.props.0@, c.for_loop_id),
{
    let mut body: Vec<TokenTree> = Vec::new();
    push_init(&mut body, c);
    push_context(&mut body, c.for_loop_id);
    push_render(&mut body);
    push_node(&mut body);
    assert(all_tokens_view(body) =~= init_tokens(c.name@, c.props.0@) + context_tokens(c.for_loop_id)
        + render_tokens() + push_node_tokens());
    let mut v: Vec<TokenTree> = Vec::new();
    push_token(&mut v, group(Delimiter::Brace, body));
    assert(all_tokens_view(v) =~= component_html(c.name@, c.props.0@, c.for_loop_id));
    v
}

/// The tokens that build the attributes of an element when it is rendered, as
/// `Attributes::to_tokens` gives them.
pub open spec fn attributes_tokens(a: Attributes) -> Seq<TokenView> {
    attributes_new(
        spec_hashmap_tokens(static_pairs(scoped_entries(a)), a.is_root),
        spec_hashmap_tokens(reactive_pairs(scoped_entries(a)), false),
    )
}

/// Whether the element with tag `tag` closes itself.
pub open spec fn closes_itself(tag: Seq<char>) -> bool {
    is_self_closing_name(lowercase(tag))
}

/// Whether the server can render `i`: each element's attributes are well formed; an
/// element that closes itself holds no children (an empty list of items); and one
/// that does not close itself holds items it can render, or a store, but no loop.
pub open spec fn html_ok(i: Item) -> bool
    decreases i, 0int,
{
    match i {
        Item::Element(e) => {
            &&& e.attributes.wf()
            &&& closes_itself(e.tag_name.0@) ==> (e.children matches Children::Items(items)
                && items.items@.len() == 0)
            &&& !closes_itself(e.tag_name.0@) ==> match e.children {
                Children::Items(items) => {
                    proof {
                        assert(decreases_to!(i => e));
                        assert(decreases_to!(e => e.children));
                        assert(decreases_to!(e.children => items));
                        assert(decreases_to!(items => items.items));
                    }
                    items_ok(items.items, items.items@.len() as int)
                },
                Children::ReactiveStore(_) => true,
                Children::ForLoop(_) => false,
            }
        },
        _ => true,
    }
}

/// Whether the server can render each of the first `n` items of `v`.
pub open spec fn items_ok(v: Vec<Item>, n: int) -> bool
    decreases v, n,
{
    if n <= 0 || n > v@.len() {
        true
    } else {
        proof {
            assert(decreases_to!(v => v@));
            assert(decreases_to!(v@ => v@[n - 1]));
        }
        items_ok(v, n - 1) && html_ok(v@[n - 1])
    }
}

/// The tokens of `format!(<args>)`.
pub open spec fn format_call(args: Seq<TokenView>) -> Seq<TokenView> {
    seq![id_tv("format"@), p_tv('!'), TokenView::Group(Delimiter::Parenthesis, args)]
}

/// The HTML of an item: a component's block; `<expression>.to_string()`; for an
/// element that closes itself `format!("<{} {} />", "<tag>", <attributes>)`, for
/// another `format!("<{0} {1}>{2}</{0}>", "<tag>", <attributes>, <content>)`, its
/// content being its items added up behind `String::new()` or its store's current
/// value.
pub open spec fn item_html(i: Item) -> Seq<TokenView>
    decreases i, 0int,
{
    match i {
        Item::Component(c) => component_html(c.name@, c.props.0@, c.for_loop_id),
        Item::Expression(x) => x@ + seq![p_tv('.'), id_tv("to_string"@), unit_tv()],
        Item::Element(e) => {
            let tag = TokenView::Literal(string_literal_text(e.tag_name.0@));
            let attributes = attributes_tokens(e.attributes);
            if closes_itself(e.tag_name.0@) {
                format_call(
                    seq![TokenView::Literal(string_literal_text("<{} {} />"@)), p_tv(','), tag, p_tv(',')]
                        + attributes,
                )
            } else {
                let content = match e.children {
                    Children::Items(items) => {
                        proof {
                            assert(decreases_to!(i => e));
                            assert(decreases_to!(e => e.children));
                            assert(decreases_to!(e.children => items));
                            assert(decreases_to!(items => items.items));
                        }
                        items_html(items.items, items.items@.len() as int)
                    },
                    Children::ReactiveStore(store) => get_call((*store.0)@),
                    Children::ForLoop(_) => Seq::empty(),
                };
                format_call(
                    seq![
                        TokenView::Literal(string_literal_text("<{0} {1}>{2}</{0}>"@)),
                        p_tv(','),
                        tag,
                        p_tv(','),
                    ] + attributes + seq![p_tv(',')] + content,
                )
            }
        },
    }
}

/// The HTML of the first `n` items of `v`: `String::new()` followed by `+ &<html>`
/// for each.
pub open spec fn items_html(v: Vec<Item>, n: int) -> Seq<TokenView>
    decreases v, n,
{
    if n <= 0 || n > v@.len() {
        seq![id_tv("String"@)] + path_sep() + seq![id_tv("new"@), unit_tv()]
    } else {
        proof {
            assert(decreases_to!(v => v@));
            assert(decreases_to!(v@ => v@[n - 1]));
        }
        items_html(v, n - 1) + seq![p_tv('+'), p_tv('&')] + item_html(v@[n - 1])
    }
}

/// An element whose tag is an HTML void element (in any case) renders as
/// `format!("<{} {} />", "<tag>", <attributes>)`; any other renders its content
/// between an opening and a closing tag, `format!("<{0} {1}>{2}</{0}>", ...)`.
pub proof fn lemma_void_elements_close_themselves(e: Element)
    ensures
        void_elements().contains(lowercase(e.tag_name.0@)) ==> item_html(Item::Element(e)) == format_call(
            seq![
                TokenView::Literal(string_literal_text("<{} {} />"@)),
                p_tv(','),
                TokenView::Literal(string_literal_text(e.tag_name.0@)),
                p_tv(','),
            ] + attributes_tokens(e.attributes),
        ),
        !void_elements().contains(lowercase(e.tag_name.0@)) ==> item_html(Item::Element(e)).len() == 3
            && item_html(Item::Element(e))[2] is Group && item_html(Item::Element(e))[2]->Group_1.take(4)
            == seq![
            TokenView::Literal(string_literal_text("<{0} {1}>{2}</{0}>"@)),
            p_tv(','),
            TokenView::Literal(string_literal_text(e.tag_name.0@)),
            p_tv(','),
        ],
{
    lemma_self_closing_is_void(lowercase(e.tag_name.0@));
    let args = item_html(Item::Element(e))[2]->Group_1;
    if !void_elements().contains(lowercase(e.tag_name.0@)) {
        assert(args.take(4) =~= seq![
            TokenView::Literal(string_literal_text("<{0} {1}>{2}</{0}>"@)),
            p_tv(','),
            TokenView::Literal(string_literal_text(e.tag_name.0@)),
            p_tv(','),
        ]);
    }
}

/// The HTML that the server renders for a part of a view.
pub struct Html {
    pub html: Vec<TokenTree>,
}

impl Html {
    /// The HTML of `item`, as `item_html` says.
    pub fn from_item(item: &Item) -> (r: Html)
        requires
            html_ok(*item),
        ensures
            all_tokens_view(r.html) == item_html(*item),
        decreases item, 1int,
    {
        match item {
            Item::Component(c) => Html { html: component_html_code(c) },
            Item::Expression(x) => {
                let mut v: Vec<TokenTree> = Vec::new();
                append_tokens(&mut v, &x.tokens);
                push_p(&mut v, '.');
                push_id(&mut v, "to_string");
                push_token(&mut v, unit_token());
                assert(all_tokens_view(v) =~= x@ + seq![p_tv('.'), id_tv("to_string"@), unit_tv()]);
                Html { html: v }
            },
            Item::Element(e) => {
                proof {
                    assert(decreases_to!(item => e));
                }
                Html::from(e)
            },
        }
    }

    /// The HTML of the element `element`, as `item_html` says of it.
    pub fn from(element: &Element) -> (r: Html)
        requires
            html_ok(Item::Element(*element)),
        ensures
            all_tokens_view(r.html) == item_html(Item::Element(*element)),
        decreases element, 0int,
    {
        let tag = element.tag_name.0.as_str();
        let attributes = element.attributes.to_tokens();
        let mut args: Vec<TokenTree> = Vec::new();
        if is_self_closing(tag) {
            push_token(&mut args, TokenTree::Literal(string_literal("<{} {} />")));
            push_p(&mut args, ',');
            push_token(&mut args, TokenTree::Literal(string_literal(tag)));
            push_p(&mut args, ',');
            append_tokens(&mut args, &attributes.tokens);
        } else {
            let content: Vec<TokenTree> = match &element.children {
                Children::Items(items) => {
                    proof {
                        assert(decreases_to!(element => element.children));
                        assert(decreases_to!(element.children => items));
                        assert(decreases_to!(items => items.items));
                    }
                    items_html_code(&items.items)
                },
                Children::ReactiveStore(store) => store.to_tokens().tokens,
                Children::ForLoop(_) => {
                    proof {
                        assert(false);
                    }
                    Vec::new()
                },
            };
            let ghost content_v = all_tokens_view(content);
            push_token(&mut args, TokenTree::Literal(string_literal("<{0} {1}>{2}</{0}>")));
            push_p(&mut args, ',');
            push_token(&mut args, TokenTree::Literal(string_literal(tag)));
            push_p(&mut args, ',');
            append_tokens(&mut args, &attributes.tokens);
            push_p(&mut args, ',');
            append_tokens(&mut args, &content);
            proof {
                let expected = match &element.children {
                    Children::Items(items) => items_html(items.items, items.items@.len() as int),
                    Children::ReactiveStore(store) => get_call((*store.0)@),
                    Children::ForLoop(_) => Seq::empty(),
                };
                assert(content_v == expected);
                assert(all_tokens_view(args) =~= seq![
                    TokenView::Literal(string_literal_text("<{0} {1}>{2}</{0}>"@)),
                    p_tv(','),
                    TokenView::Literal(string_literal_text(element.tag_name.0@)),
                    p_tv(','),
                ] + attributes_tokens(element.attributes) + seq![p_tv(',')] + expected);
            }
        }
        let ghost args_v = all_tokens_view(args);
        let mut v: Vec<TokenTree> = Vec::new();
        push_id(&mut v, "format");
        push_p(&mut v, '!');
        push_token(&mut v, group(Delimiter::Parenthesis, args));
        assert(all_tokens_view(v) =~= format_call(args_v));
        proof {
            assert(all_tokens_view(attributes.tokens) == attributes_tokens(element.attributes));
            if closes_itself(element.tag_name.0@) {
                assert(args_v =~= seq![
                    TokenView::Literal(string_literal_text("<{} {} />"@)),
                    p_tv(','),
                    TokenView::Literal(string_literal_text(element.tag_name.0@)),
                    p_tv(','),
                ] + attributes_tokens(element.attributes));
            }
        }
        Html { html: v }
    }
}

/// The HTML of the items `v`, as `items_html` says.
fn items_html_code(v: &Vec<Item>) -> (r: Vec<TokenTree>)
    requires
        items_ok(*v, v@.len() as int),
    ensures
        all_tokens_view(r) == items_html(*v, v@.len() as int),
    decreases v, 0int,
{
    let mut out: Vec<TokenTree> = Vec::new();
    push_id(&mut out, "String");
    push_path_sep(&mut out);
    push_id(&mut out, "new");
    push_token(&mut out, unit_token());
    assert(all_tokens_view(out) =~= items_html(*v, 0));
    let mut i: usize = 0;
    while i < v.len()
        invariant
            i <= v@.len(),
            items_ok(*v, v@.len() as int),
            all_tokens_view(out) == items_html(*v, i as int),
        decreases v@.len() - i,
    {
        proof {
            assert(decreases_to!(v => v@));
            assert(decreases_to!(v@ => v@[i as int]));
            lemma_items_ok_prefix(*v, i + 1, v@.len() as int);
        }
        let h = Html::from_item(&v[i]);
        push_p(&mut out, '+');
        push_p(&mut out, '&');
        append_tokens(&mut out, &h.html);
        i = i + 1;
    }
    out
}

/// A list of items the server can render begins with items it can render.
proof fn lemma_items_ok_prefix(v: Vec<Item>, m: int, n: int)
    requires
        0 < m <= n <= v@.len(),
        items_ok(v, n),
    ensures
        items_ok(v, m),
        html_ok(v@[m - 1]),
    decreases n - m,
{
    if m < n {
        lemma_items_ok_prefix(v, m, n - 1);
    }
}

/// The HTML of a conditional item: `if <condition> { <true branch> } else { <false
/// branch, or String::new()> }`.
pub open spec fn if_html(i: If) -> Seq<TokenView> {
    let otherwise = match i.false_branch {
        Some(b) => item_html(*b),
        None => seq![id_tv("String"@)] + path_sep() + seq![id_tv("new"@), unit_tv()],
    };
    seq![id_tv("if"@)] + i.condition@ + seq![
        TokenView::Group(Delimiter::Brace, item_html(*i.true_branch)),
        id_tv("else"@),
        TokenView::Group(Delimiter::Brace, otherwise),
    ]
}

impl If {
    /// The HTML of the conditional item, as `if_html` says.
    pub fn html(&self) -> (r: Html)
        requires
            html_ok(*self.true_branch),
            self.false_branch matches Some(b) ==> html_ok(*b),
        ensures
            all_tokens_view(r.html) == if_html(*self),
    {
        let yes = Html::from_item(&self.true_branch);
        let no: Vec<TokenTree> = match &self.false_branch {
            Some(b) => Html::from_item(b).html,
            None => {
                let mut v: Vec<TokenTree> = Vec::new();
                push_id(&mut v, "String");
                push_path_sep(&mut v);
                push_id(&mut v, "new");
                push_token(&mut v, unit_token());
                assert(all_tokens_view(v) =~= seq![id_tv("String"@)] + path_sep() + seq![
                    id_tv("new"@),
                    unit_tv(),
                ]);
                v
            },
        };
        let mut v: Vec<TokenTree> = Vec::new();
        push_id(&mut v, "if");
        append_tokens(&mut v, &self.condition.tokens);
        push_token(&mut v, group(Delimiter::Brace, yes.html));
        push_id(&mut v, "else");
        push_token(&mut v, group(Delimiter::Brace, no));
        assert(all_tokens_view(v) =~= if_html(*self));
        Html { html: v }
    }
}

} // verus!
