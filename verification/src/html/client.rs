//! What the client build (WebAssembly) of a view does once the server has rendered
//! it: which components it takes back, and the code that keeps the page in step with
//! events and stores.

use vstd::prelude::*;
use crate::html::{Attribute, AttributeValue};
use crate::html::parse::{
    attribute_view, attributes_view, children_view, item_view, items_view, Children, ChildrenView,
    Element, Item, ItemView, ValueView,
};
use crate::view::generate::server::{decimal, push_decimal};
use crate::view::parse::grammar::{bump, next_id};
use crate::macros::{id_tv, p_tv, push_id, push_p};
use crate::tokens::{
    all_tokens_view, append_tokens, group, path_sep, push_path_sep, push_token, string_literal,
    string_literal_text, Delimiter, Expr, TokenTree, TokenView,
};

verus! {

/// What the client build needs of an element and what it contains: the names of
/// the components to take back, in order, the blocks of code that keep the page in
/// step, and the scoped id of the element.
pub struct Data {
    pub components: Vec<String>,
    /// Code to update the page on changes.
    pub reactivity: Vec<Vec<TokenTree>>,
    pub scoped_id: String,
}

/// `Data` as mathematical values.
pub struct DataView {
    pub components: Seq<Seq<char>>,
    pub reactivity: Seq<Seq<TokenView>>,
    pub scoped_id: Seq<char>,
}

/// The texts of a list of strings.
pub open spec fn strings_view(s: Seq<String>) -> Seq<Seq<char>> {
    s.map_values(|x: String| x@)
}

/// The token values of a list of blocks of token trees.
pub open spec fn blocks_view(s: Seq<Vec<TokenTree>>) -> Seq<Seq<TokenView>> {
    s.map_values(|b: Vec<TokenTree>| all_tokens_view(b))
}

impl View for Data {
    type V = DataView;

    open spec fn view(&self) -> DataView {
        DataView {
            components: strings_view(self.components@),
            reactivity: blocks_view(self.reactivity@),
            scoped_id: self.scoped_id@,
        }
    }
}

/// No components, no code, and an empty scoped id.
pub open spec fn empty_data() -> DataView {
    DataView { components: Seq::empty(), reactivity: Seq::empty(), scoped_id: Seq::empty() }
}

/// The tokens of `()`.
pub open spec fn unit_tv() -> TokenView {
    TokenView::Group(Delimiter::Parenthesis, Seq::empty())
}

/// The tokens of `let scope_id = Rc::clone(&scope_id);`.
pub open spec fn clone_scope_tokens() -> Seq<TokenView> {
    seq![id_tv("let"@), id_tv("scope_id"@), p_tv('='), id_tv("Rc"@)] + path_sep() + seq![
        id_tv("clone"@),
        TokenView::Group(Delimiter::Parenthesis, seq![p_tv('&'), id_tv("scope_id"@)]),
        p_tv(';'),
    ]
}

/// The tokens of `shared::dom::get_reactive_element(&*scope_id, "<scoped id>")`.
pub open spec fn reactive_element_tokens(scoped_id: Seq<char>) -> Seq<TokenView> {
    seq![id_tv("shared"@)] + path_sep() + seq![id_tv("dom"@)] + path_sep() + seq![
        id_tv("get_reactive_element"@),
        TokenView::Group(
            Delimiter::Parenthesis,
            seq![
                p_tv('&'),
                p_tv('*'),
                id_tv("scope_id"@),
                p_tv(','),
                TokenView::Literal(string_literal_text(scoped_id)),
            ],
        ),
    ]
}

/// The tokens of
/// `let closure = wasm_bindgen::prelude::Closure::<dyn FnMut()>::new(<handler>);`.
pub open spec fn closure_tokens(handler: Seq<TokenView>) -> Seq<TokenView> {
    seq![id_tv("let"@), id_tv("closure"@), p_tv('='), id_tv("wasm_bindgen"@)] + path_sep() + seq![
        id_tv("prelude"@),
    ] + path_sep() + seq![id_tv("Closure"@)] + path_sep() + seq![
        p_tv('<'),
        id_tv("dyn"@),
        id_tv("FnMut"@),
        unit_tv(),
        p_tv('>'),
    ] + path_sep() + seq![
        id_tv("new"@),
        TokenView::Group(Delimiter::Parenthesis, handler),
        p_tv(';'),
    ]
}

/// The tokens of
/// `.add_event_listener_with_callback("<event>", closure.as_ref().unchecked_ref())
/// .expect_internal("add event"); closure.forget();`.
pub open spec fn listen_tokens(event: Seq<char>) -> Seq<TokenView> {
    seq![
        p_tv('.'),
        id_tv("add_event_listener_with_callback"@),
        TokenView::Group(
            Delimiter::Parenthesis,
            seq![
                TokenView::Literal(string_literal_text(event)),
                p_tv(','),
                id_tv("closure"@),
                p_tv('.'),
                id_tv("as_ref"@),
                unit_tv(),
                p_tv('.'),
                id_tv("unchecked_ref"@),
                unit_tv(),
            ],
        ),
        p_tv('.'),
        id_tv("expect_internal"@),
        TokenView::Group(
            Delimiter::Parenthesis,
            seq![TokenView::Literal(string_literal_text("add event"@))],
        ),
        p_tv(';'),
        id_tv("closure"@),
        p_tv('.'),
        id_tv("forget"@),
        unit_tv(),
        p_tv(';'),
    ]
}

/// The code that runs `handler` whenever the element with the scoped id dispatches
/// the event `event`.
pub open spec fn event_listener_tokens(handler: Seq<TokenView>, scoped_id: Seq<char>, event: Seq<char>) -> Seq<
    TokenView,
> {
    clone_scope_tokens() + closure_tokens(handler) + reactive_element_tokens(scoped_id) + listen_tokens(
        event,
    )
}

/// The event that an attribute key names: what follows `on:`, if the key starts
/// with it.
pub open spec fn event_name(key: Seq<char>) -> Option<Seq<char>> {
    if key.len() >= 3 && key[0] == 'o' && key[1] == 'n' && key[2] == ':' {
        Some(key.skip(3))
    } else {
        None
    }
}

/// `d` with one more block of code.
pub open spec fn with_block(d: DataView, block: Seq<TokenView>) -> DataView {
    DataView { reactivity: d.reactivity.push(block), ..d }
}

/// What one attribute adds: an event listener when its key names an event and its
/// value is an expression; nothing otherwise.
pub open spec fn spec_add_attribute_data(d: DataView, attribute: (Seq<char>, ValueView)) -> DataView {
    match attribute.1 {
        ValueView::Static(handler) => match event_name(attribute.0) {
            Some(event) => with_block(d, event_listener_tokens(handler, d.scoped_id, event)),
            None => d,
        },
        ValueView::Reactive(_) => d,
    }
}

/// What a list of attributes adds, one after the other.
pub open spec fn spec_add_event_data(d: DataView, attributes: Seq<(Seq<char>, ValueView)>) -> DataView
    decreases attributes.len(),
{
    if attributes.len() == 0 {
        d
    } else {
        spec_add_attribute_data(spec_add_event_data(d, attributes.drop_last()), attributes.last())
    }
}

/// The tokens of `shared::dom::as_html_element(element)
/// .set_inner_text(&std::string::ToString::to_string(new));`.
pub open spec fn set_text_tokens() -> Seq<TokenView> {
    seq![id_tv("shared"@)] + path_sep() + seq![id_tv("dom"@)] + path_sep() + seq![
        id_tv("as_html_element"@),
        TokenView::Group(Delimiter::Parenthesis, seq![id_tv("element"@)]),
        p_tv('.'),
        id_tv("set_inner_text"@),
        TokenView::Group(
            Delimiter::Parenthesis,
            seq![p_tv('&'), id_tv("std"@)] + path_sep() + seq![id_tv("string"@)] + path_sep() + seq![
                id_tv("ToString"@),
            ] + path_sep() + seq![
                id_tv("to_string"@),
                TokenView::Group(Delimiter::Parenthesis, seq![id_tv("new"@)]),
            ],
        ),
        p_tv(';'),
    ]
}

/// The code that shows the value of `store` in the element with the scoped id each
/// time the store changes: `let scope_id = Rc::clone(&scope_id);
/// shared::Store::on_change(&mut <store>, move |_, new| { let element =
/// <reactive element>; <set text> });`.
pub open spec fn store_tokens(store: Seq<TokenView>, scoped_id: Seq<char>) -> Seq<TokenView> {
    let body = seq![id_tv("let"@), id_tv("element"@), p_tv('=')] + reactive_element_tokens(scoped_id)
        + seq![p_tv(';')] + set_text_tokens();
    clone_scope_tokens() + seq![id_tv("shared"@)] + path_sep() + seq![id_tv("Store"@)] + path_sep()
        + seq![
        id_tv("on_change"@),
        TokenView::Group(
            Delimiter::Parenthesis,
            seq![p_tv('&'), id_tv("mut"@)] + store + seq![
                p_tv(','),
                id_tv("move"@),
                p_tv('|'),
                id_tv("_"@),
                p_tv(','),
                id_tv("new"@),
                p_tv('|'),
                TokenView::Group(Delimiter::Brace, body),
            ],
        ),
        p_tv(';'),
    ]
}

/// `let scope_id = Rc::clone(&scope_id);`
fn clone_scope() -> (v: Vec<TokenTree>)
    ensures
        all_tokens_view(v) == clone_scope_tokens(),
{
    let mut arg: Vec<TokenTree> = Vec::new();
    push_p(&mut arg, '&');
    push_id(&mut arg, "scope_id");
    assert(all_tokens_view(arg) =~= seq![p_tv('&'), id_tv("scope_id"@)]);
    let mut v: Vec<TokenTree> = Vec::new();
    push_id(&mut v, "let");
    push_id(&mut v, "scope_id");
    push_p(&mut v, '=');
    push_id(&mut v, "Rc");
    push_path_sep(&mut v);
    push_id(&mut v, "clone");
    push_token(&mut v, group(Delimiter::Parenthesis, arg));
    push_p(&mut v, ';');
    assert(all_tokens_view(v) =~= clone_scope_tokens());
    v
}

/// `()`
pub(crate) fn unit_token() -> (t: TokenTree)
    ensures
        crate::tokens::token_view(t) == unit_tv(),
{
    let empty: Vec<TokenTree> = Vec::new();
    assert(all_tokens_view(empty) =~= Seq::<TokenView>::empty());
    group(Delimiter::Parenthesis, empty)
}

/// `shared::dom::get_reactive_element(&*scope_id, "<scoped id>")`
fn reactive_element(v: &mut Vec<TokenTree>, scoped_id: &str)
    ensures
        all_tokens_view(*final(v)) == all_tokens_view(*old(v)) + reactive_element_tokens(scoped_id@),
{
    let ghost start = all_tokens_view(*v);
    let mut args: Vec<TokenTree> = Vec::new();
    push_p(&mut args, '&');
    push_p(&mut args, '*');
    push_id(&mut args, "scope_id");
    push_p(&mut args, ',');
    push_token(&mut args, TokenTree::Literal(string_literal(scoped_id)));
    assert(all_tokens_view(args) =~= seq![
        p_tv('&'),
        p_tv('*'),
        id_tv("scope_id"@),
        p_tv(','),
        TokenView::Literal(string_literal_text(scoped_id@)),
    ]);
    push_id(v, "shared");
    push_path_sep(v);
    push_id(v, "dom");
    push_path_sep(v);
    push_id(v, "get_reactive_element");
    push_token(v, group(Delimiter::Parenthesis, args));
    assert(all_tokens_view(*v) =~= start + reactive_element_tokens(scoped_id@));
}

/// `let closure = wasm_bindgen::prelude::Closure::<dyn FnMut()>::new(<handler>);`
pub(crate) fn closure(v: &mut Vec<TokenTree>, handler: &Expr)
    ensures
        all_tokens_view(*final(v)) == all_tokens_view(*old(v)) + closure_tokens(handler@),
{
    let ghost start = all_tokens_view(*v);
    let mut arg: Vec<TokenTree> = Vec::new();
    append_tokens(&mut arg, &handler.tokens);
    assert(all_tokens_view(arg) =~= handler@);
    push_id(v, "let");
    push_id(v, "closure");
    push_p(v, '=');
    push_id(v, "wasm_bindgen");
    push_path_sep(v);
    push_id(v, "prelude");
    push_path_sep(v);
    push_id(v, "Closure");
    push_path_sep(v);
    push_p(v, '<');
    push_id(v, "dyn");
    push_id(v, "FnMut");
    push_token(v, unit_token());
    push_p(v, '>');
    push_path_sep(v);
    push_id(v, "new");
    push_token(v, group(Delimiter::Parenthesis, arg));
    push_p(v, ';');
    assert(all_tokens_view(*v) =~= start + closure_tokens(handler@));
}

/// `.add_event_listener_with_callback("<event>", closure.as_ref().unchecked_ref())
/// .expect_internal("add event"); closure.forget();`
pub(crate) fn listen(v: &mut Vec<TokenTree>, event: &str)
    ensures
        all_tokens_view(*final(v)) == all_tokens_view(*old(v)) + listen_tokens(event@),
{
    let ghost start = all_tokens_view(*v);
    let mut args: Vec<TokenTree> = Vec::new();
    push_token(&mut args, TokenTree::Literal(string_literal(event)));
    push_p(&mut args, ',');
    push_id(&mut args, "closure");
    push_p(&mut args, '.');
    push_id(&mut args, "as_ref");
    push_token(&mut args, unit_token());
    push_p(&mut args, '.');
    push_id(&mut args, "unchecked_ref");
    push_token(&mut args, unit_token());
    let mut message: Vec<TokenTree> = Vec::new();
    push_token(&mut message, TokenTree::Literal(string_literal("add event")));
    assert(all_tokens_view(args) =~= seq![
        TokenView::Literal(string_literal_text(event@)),
        p_tv(','),
        id_tv("closure"@),
        p_tv('.'),
        id_tv("as_ref"@),
        unit_tv(),
        p_tv('.'),
        id_tv("unchecked_ref"@),
        unit_tv(),
    ]);
    assert(all_tokens_view(message) =~= seq![TokenView::Literal(string_literal_text("add event"@))]);
    push_p(v, '.');
    push_id(v, "add_event_listener_with_callback");
    push_token(v, group(Delimiter::Parenthesis, args));
    push_p(v, '.');
    push_id(v, "expect_internal");
    push_token(v, group(Delimiter::Parenthesis, message));
    push_p(v, ';');
    push_id(v, "closure");
    push_p(v, '.');
    push_id(v, "forget");
    push_token(v, unit_token());
    push_p(v, ';');
    assert(all_tokens_view(*v) =~= start + listen_tokens(event@));
}

/// `shared::dom::as_html_element(element)
/// .set_inner_text(&std::string::ToString::to_string(new));`
fn set_text(v: &mut Vec<TokenTree>)
    ensures
        all_tokens_view(*final(v)) == all_tokens_view(*old(v)) + set_text_tokens(),
{
    let ghost start = all_tokens_view(*v);
    let mut element: Vec<TokenTree> = Vec::new();
    push_id(&mut element, "element");
    assert(all_tokens_view(element) =~= seq![id_tv("element"@)]);
    let mut new: Vec<TokenTree> = Vec::new();
    push_id(&mut new, "new");
    assert(all_tokens_view(new) =~= seq![id_tv("new"@)]);
    let mut text: Vec<TokenTree> = Vec::new();
    push_p(&mut text, '&');
    push_id(&mut text, "std");
    push_path_sep(&mut text);
    push_id(&mut text, "string");
    push_path_sep(&mut text);
    push_id(&mut text, "ToString");
    push_path_sep(&mut text);
    push_id(&mut text, "to_string");
    push_token(&mut text, group(Delimiter::Parenthesis, new));
    assert(all_tokens_view(text) =~= seq![p_tv('&'), id_tv("std"@)] + path_sep() + seq![id_tv("string"@)]
        + path_sep() + seq![id_tv("ToString"@)] + path_sep() + seq![
        id_tv("to_string"@),
        TokenView::Group(Delimiter::Parenthesis, seq![id_tv("new"@)]),
    ]);
    push_id(v, "shared");
    push_path_sep(v);
    push_id(v, "dom");
    push_path_sep(v);
    push_id(v, "as_html_element");
    push_token(v, group(Delimiter::Parenthesis, element));
    push_p(v, '.');
    push_id(v, "set_inner_text");
    push_token(v, group(Delimiter::Parenthesis, text));
    push_p(v, ';');
    assert(all_tokens_view(*v) =~= start + set_text_tokens());
}

/// The event that an attribute key names, as `event_name` says.
fn event_name_of(key: &str) -> (r: Option<String>)
    ensures
        match r {
            Some(e) => event_name(key@) == Some(e@),
            None => event_name(key@) is None,
        },
{
    let n = key.unicode_len();
    if n >= 3 && key.get_char(0) == 'o' && key.get_char(1) == 'n' && key.get_char(2) == ':' {
        let rest = key.substring_char(3, n);
        assert(rest@ =~= key@.skip(3));
        Some(String::from_str(rest))
    } else {
        None
    }
}

impl Data {
    /// Adds the block of code `block`.
    fn push_block(&mut self, block: Vec<TokenTree>)
        ensures
            final(self)@ == with_block(old(self)@, all_tokens_view(block)),
    {
        let ghost before = self.reactivity@;
        self.reactivity.push(block);
        assert(blocks_view(self.reactivity@) =~= blocks_view(before).push(all_tokens_view(block)));
    }

    /// Adds an event listener for `attribute` when its key is `on:<event>` and its
    /// value is an expression, which then handles the event on the element.
    pub fn add_attribute_data(&mut self, attribute: &Attribute)
        ensures
            final(self)@ == spec_add_attribute_data(old(self)@, attribute_view(*attribute)),
    {
        match &attribute.value {
            AttributeValue::Static(handler) => {
                match event_name_of(attribute.key.as_str()) {
                    Some(event) => {
                        let mut block = clone_scope();
                        closure(&mut block, handler);
                        reactive_element(&mut block, self.scoped_id.as_str());
                        listen(&mut block, event.as_str());
                        assert(all_tokens_view(block) =~= event_listener_tokens(
                            handler@,
                            self.scoped_id@,
                            event@,
                        ));
                        self.push_block(block);
                    },
                    None => {},
                }
            },
            AttributeValue::Reactive(_) => {},
        }
    }

    /// Adds an event listener for each attribute that names an event, in order.
    pub fn add_event_data(&mut self, attributes: Vec<Attribute>)
        ensures
            final(self)@ == spec_add_event_data(old(self)@, attributes_view(attributes@)),
    {
        self.add_events(&attributes);
    }

    /// `add_event_data` on borrowed attributes.
    fn add_events(&mut self, attributes: &Vec<Attribute>)
        ensures
            final(self)@ == spec_add_event_data(old(self)@, attributes_view(attributes@)),
    {
        let ghost start = self@;
        let mut i: usize = 0;
        while i < attributes.len()
            invariant
                i <= attributes@.len(),
                self@ == spec_add_event_data(start, attributes_view(attributes@.take(i as int))),
            decreases attributes@.len() - i,
        {
            self.add_attribute_data(&attributes[i]);
            let ghost s = attributes_view(attributes@.take(i + 1));
            assert(s.drop_last() =~= attributes_view(attributes@.take(i as int)));
            assert(s.last() == attribute_view(attributes@[i as int]));
            i = i + 1;
        }
        assert(attributes@.take(i as int) =~= attributes@);
    }

    /// Adds the code that shows the value of `store` in the element each time the
    /// store changes.
    pub fn add_store_data(&mut self, store: &Expr)
        ensures
            final(self)@ == with_block(old(self)@, store_tokens(store@, old(self)@.scoped_id)),
    {
        let mut body: Vec<TokenTree> = Vec::new();
        push_id(&mut body, "let");
        push_id(&mut body, "element");
        push_p(&mut body, '=');
        reactive_element(&mut body, self.scoped_id.as_str());
        push_p(&mut body, ';');
        set_text(&mut body);
        assert(all_tokens_view(body) =~= seq![id_tv("let"@), id_tv("element"@), p_tv('=')]
            + reactive_element_tokens(self.scoped_id@) + seq![p_tv(';')] + set_text_tokens());
        let ghost body_v = all_tokens_view(body);
        let mut args: Vec<TokenTree> = Vec::new();
        push_p(&mut args, '&');
        push_id(&mut args, "mut");
        append_tokens(&mut args, &store.tokens);
        assert(all_tokens_view(store.tokens) == store@);
        push_p(&mut args, ',');
        push_id(&mut args, "move");
        push_p(&mut args, '|');
        push_id(&mut args, "_");
        push_p(&mut args, ',');
        push_id(&mut args, "new");
        push_p(&mut args, '|');
        push_token(&mut args, group(Delimiter::Brace, body));
        assert(all_tokens_view(args) =~= seq![p_tv('&'), id_tv("mut"@)] + store@ + seq![
            p_tv(','),
            id_tv("move"@),
            p_tv('|'),
            id_tv("_"@),
            p_tv(','),
            id_tv("new"@),
            p_tv('|'),
            TokenView::Group(Delimiter::Brace, body_v),
        ]);
        let mut block = clone_scope();
        push_id(&mut block, "shared");
        push_path_sep(&mut block);
        push_id(&mut block, "Store");
        push_path_sep(&mut block);
        push_id(&mut block, "on_change");
        push_token(&mut block, group(Delimiter::Parenthesis, args));
        push_p(&mut block, ';');
        assert(all_tokens_view(block) =~= store_tokens(store@, self.scoped_id@));
        self.push_block(block);
    }
}

/// `d` with the components and code of `child` after its own.
pub open spec fn merge(d: DataView, child: DataView) -> DataView {
    DataView {
        components: d.components + child.components,
        reactivity: d.reactivity + child.reactivity,
        scoped_id: d.scoped_id,
    }
}

/// What the client build needs of an item whose first element takes the id `id`,
/// and the id that the next element takes. A component is taken back by its name;
/// an element takes `id` as its scoped id (in decimal), listens to the events its
/// attributes name, then either gathers what its children need, their elements
/// numbered from the id after `id` on, or follows its store.
pub open spec fn spec_item_data(item: ItemView, id: u64) -> (DataView, u64)
    decreases item,
{
    match item {
        ItemView::Component(name, _) => (
            DataView { components: seq![name], reactivity: Seq::empty(), scoped_id: Seq::empty() },
            id,
        ),
        ItemView::Element(_, attributes, children) => {
            let d = spec_add_event_data(
                DataView { scoped_id: decimal(id as nat), ..empty_data() },
                attributes,
            );
            match children {
                ChildrenView::Items(items) => {
                    proof {
                        assert(decreases_to!(item => children));
                        assert(decreases_to!(children => items));
                    }
                    spec_add_child_data(d, items, next_id(id))
                },
                ChildrenView::ReactiveStore(store) => (
                    with_block(d, store_tokens(store, d.scoped_id)),
                    next_id(id),
                ),
            }
        },
        ItemView::Expression(_) => (empty_data(), id),
    }
}

/// `d` with what the client build needs of each item of `items`, in order, their
/// elements numbered from `id` on; and the id after the last of them.
pub open spec fn spec_add_child_data(d: DataView, items: Seq<ItemView>, id: u64) -> (DataView, u64)
    decreases items,
{
    if items.len() == 0 {
        (d, id)
    } else {
        proof {
            assert(decreases_to!(items => items.subrange(0, items.len() - 1)));
            assert(decreases_to!(items => items[items.len() - 1]));
        }
        let (before, next) = spec_add_child_data(d, items.drop_last(), id);
        let (child, last) = spec_item_data(items.last(), next);
        (merge(before, child), last)
    }
}

/// The value of an element as an item.
pub open spec fn element_view(e: Element) -> ItemView {
    ItemView::Element(e.tag_name@, attributes_view(e.attributes@), children_view(e.children))
}

impl Data {
    /// No components, no code, and an empty scoped id.
    pub fn new() -> (d: Data)
        ensures
            d@ == empty_data(),
    {
        let d = Data { components: Vec::new(), reactivity: Vec::new(), scoped_id: String::new() };
        assert(d@.components =~= Seq::<Seq<char>>::empty());
        assert(d@.reactivity =~= Seq::<Seq<TokenView>>::empty());
        d
    }

    /// Adds the components and code of `child` after those of `self`.
    fn absorb(&mut self, child: Data)
        ensures
            final(self)@ == merge(old(self)@, child@),
    {
        let ghost before = self@;
        let Data { mut components, mut reactivity, .. } = child;
        let ghost cs = components@;
        let ghost rs = reactivity@;
        let ghost own_c = self.components@;
        let ghost own_r = self.reactivity@;
        self.components.append(&mut components);
        self.reactivity.append(&mut reactivity);
        assert(strings_view(own_c + cs) =~= strings_view(own_c) + strings_view(cs));
        assert(blocks_view(own_r + rs) =~= blocks_view(own_r) + blocks_view(rs));
    }

    /// What the client build needs of `item`, its first element taking the id `id`;
    /// and the id that the next element takes.
    pub fn from_item(item: &Item, id: u64) -> (r: (Data, u64))
        ensures
            (r.0@, r.1) == spec_item_data(item_view(*item), id),
        decreases item,
    {
        match item {
            Item::Component(component) => {
                let mut d = Data::new();
                d.components.push(component.name.clone());
                assert(d@.components =~= seq![component.name@]);
                (d, id)
            },
            Item::Element(element) => {
                proof {
                    assert(decreases_to!(item => element));
                }
                Data::from_element(element, id)
            },
            Item::Expression(_) => (Data::new(), id),
        }
    }

    /// What the client build needs of `element`, which takes the id `id`; and the id
    /// that the next element takes.
    pub fn from_element(element: &Element, id: u64) -> (r: (Data, u64))
        ensures
            (r.0@, r.1) == spec_item_data(element_view(*element), id),
        decreases element, 1int,
    {
        let mut scoped_id = String::new();
        push_decimal(&mut scoped_id, id);
        let mut data = Data::new();
        data.scoped_id = scoped_id;
        assert(data@ == DataView { scoped_id: decimal(id as nat), ..empty_data() });
        data.add_events(&element.attributes);
        let next = bump(id);
        match &element.children {
            Children::Children(items) => {
                proof {
                    assert(decreases_to!(element => element.children));
                    assert(decreases_to!(element.children => items));
                }
                let last = data.add_child_data(items, next);
                (data, last)
            },
            Children::ReactiveStore(store) => {
                data.add_store_data(store);
                (data, next)
            },
        }
    }

    /// Adds what the client build needs of each of `children`, in order, their
    /// elements numbered from `id` on; returns the id after the last of them.
    pub fn add_child_data(&mut self, children: &Vec<Item>, id: u64) -> (r: u64)
        ensures
            (final(self)@, r) == spec_add_child_data(
                old(self)@,
                items_view(*children, children@.len() as int),
                id,
            ),
        decreases children,
    {
        let ghost start = self@;
        let mut next = id;
        let mut i: usize = 0;
        while i < children.len()
            invariant
                i <= children@.len(),
                (self@, next) == spec_add_child_data(start, items_view(*children, i as int), id),
            decreases children@.len() - i,
        {
            proof {
                assert(decreases_to!(children => children@));
                assert(decreases_to!(children@ => children@[i as int]));
            }
            let (child, after) = Data::from_item(&children[i], next);
            self.absorb(child);
            next = after;
            assert(items_view(*children, i + 1).drop_last() =~= items_view(*children, i as int));
            i = i + 1;
        }
        next
    }
}


/// The tokens of `use std::rc::Rc; use wasm_bindgen::JsCast;
/// use shared::errors::MapInternal; let mut children = context.children.into_iter();
/// let scope_id = Rc::new(context.id);`.
pub open spec fn client_prelude() -> Seq<TokenView> {
    client_uses() + client_lets()
}

/// The tokens of `use std::rc::Rc; use wasm_bindgen::JsCast;
/// use shared::errors::MapInternal;`.
pub open spec fn client_uses() -> Seq<TokenView> {
    seq![id_tv("use"@), id_tv("std"@)] + path_sep() + seq![id_tv("rc"@)] + path_sep() + seq![
        id_tv("Rc"@),
        p_tv(';'),
        id_tv("use"@),
        id_tv("wasm_bindgen"@),
    ] + path_sep() + seq![id_tv("JsCast"@), p_tv(';'), id_tv("use"@), id_tv("shared"@)] + path_sep()
        + seq![id_tv("errors"@)] + path_sep() + seq![id_tv("MapInternal"@), p_tv(';')]
}

/// The tokens of `let mut children = context.children.into_iter();
/// let scope_id = Rc::new(context.id);`.
pub open spec fn client_lets() -> Seq<TokenView> {
    seq![
        id_tv("let"@),
        id_tv("mut"@),
        id_tv("children"@),
        p_tv('='),
        id_tv("context"@),
        p_tv('.'),
        id_tv("children"@),
        p_tv('.'),
        id_tv("into_iter"@),
        unit_tv(),
        p_tv(';'),
        id_tv("let"@),
        id_tv("scope_id"@),
        p_tv('='),
        id_tv("Rc"@),
    ] + path_sep() + seq![
        id_tv("new"@),
        TokenView::Group(Delimiter::Parenthesis, seq![id_tv("context"@), p_tv('.'), id_tv("id"@)]),
        p_tv(';'),
    ]
}

/// The text of the message when the client has fewer children than the server.
pub open spec fn missing_child_message() -> Seq<char> {
    "retrieve all child data: client and server child lists don't match"@
}

/// The block that takes back the component named `name` from the next child that
/// the server rendered: `{ let child = children.next().expect_internal("<message>");
/// let mut component: <name> = shared::postcard::from_bytes(&child.component)
/// .expect("Couldn't deserialize component"); component.render(child.render_context); }`.
pub open spec fn component_block(name: Seq<char>) -> TokenView {
    TokenView::Group(Delimiter::Brace, component_block_body(name))
}

/// The tokens between the braces of `component_block(name)`.
pub open spec fn component_block_body(name: Seq<char>) -> Seq<TokenView> {
        seq![
            id_tv("let"@),
            id_tv("child"@),
            p_tv('='),
            id_tv("children"@),
            p_tv('.'),
            id_tv("next"@),
            unit_tv(),
            p_tv('.'),
            id_tv("expect_internal"@),
            TokenView::Group(
                Delimiter::Parenthesis,
                seq![TokenView::Literal(string_literal_text(missing_child_message()))],
            ),
            p_tv(';'),
            id_tv("let"@),
            id_tv("mut"@),
            id_tv("component"@),
            p_tv(':'),
            id_tv(name),
            p_tv('='),
            id_tv("shared"@),
        ] + path_sep() + seq![id_tv("postcard"@)] + path_sep() + seq![
            id_tv("from_bytes"@),
            TokenView::Group(
                Delimiter::Parenthesis,
                seq![p_tv('&'), id_tv("child"@), p_tv('.'), id_tv("component"@)],
            ),
            p_tv('.'),
            id_tv("expect"@),
            TokenView::Group(
                Delimiter::Parenthesis,
                seq![TokenView::Literal(string_literal_text("Couldn't deserialize component"@))],
            ),
            p_tv(';'),
            id_tv("component"@),
            p_tv('.'),
            id_tv("render"@),
            TokenView::Group(
                Delimiter::Parenthesis,
                seq![id_tv("child"@), p_tv('.'), id_tv("render_context"@)],
            ),
            p_tv(';'),
        ]
}

/// One block per component name, in order.
pub open spec fn component_blocks(names: Seq<Seq<char>>) -> Seq<TokenView>
    decreases names.len(),
{
    if names.len() == 0 {
        Seq::empty()
    } else {
        component_blocks(names.drop_last()).push(component_block(names.last()))
    }
}

/// Each block of code between braces, in order, with `;` between two of them.
pub open spec fn code_blocks(blocks: Seq<Seq<TokenView>>) -> Seq<TokenView>
    decreases blocks.len(),
{
    if blocks.len() == 0 {
        Seq::empty()
    } else if blocks.len() == 1 {
        seq![TokenView::Group(Delimiter::Brace, blocks[0])]
    } else {
        code_blocks(blocks.drop_last()) + seq![
            p_tv(';'),
            TokenView::Group(Delimiter::Brace, blocks.last()),
        ]
    }
}

/// Code blocks stand between braces with `;` between two of them: two nonempty
/// lists one after the other give the first's blocks, a `;`, then the second's.
pub proof fn lemma_code_blocks_join(a: Seq<Seq<TokenView>>, b: Seq<Seq<TokenView>>)
    requires
        a.len() > 0,
        b.len() > 0,
    ensures
        code_blocks(a + b) == code_blocks(a) + seq![p_tv(';')] + code_blocks(b),
    decreases b.len(),
{
    if b.len() == 1 {
        assert((a + b).drop_last() =~= a);
        assert((a + b).last() == b[0]);
    } else {
        lemma_code_blocks_join(a, b.drop_last());
        assert((a + b).drop_last() =~= a + b.drop_last());
        assert((a + b).last() == b.last());
        assert(code_blocks(a + b) =~= code_blocks(a) + seq![p_tv(';')] + code_blocks(b));
    }
}

/// The client code of a view whose data is `d`: the prelude, then the blocks that
/// take back its components, then its code blocks.
pub open spec fn client_tokens(d: DataView) -> Seq<TokenView> {
    client_prelude() + component_blocks(d.components) + code_blocks(d.reactivity)
}

/// The tokens of `client_uses`.
fn push_uses(v: &mut Vec<TokenTree>)
    ensures
        all_tokens_view(*final(v)) == all_tokens_view(*old(v)) + client_uses(),
{
    let ghost start = all_tokens_view(*v);
    push_id(v, "use");
    push_id(v, "std");
    push_path_sep(v);
    push_id(v, "rc");
    push_path_sep(v);
    push_id(v, "Rc");
    push_p(v, ';');
    push_id(v, "use");
    push_id(v, "wasm_bindgen");
    push_path_sep(v);
    push_id(v, "JsCast");
    push_p(v, ';');
    push_id(v, "use");
    push_id(v, "shared");
    push_path_sep(v);
    push_id(v, "errors");
    push_path_sep(v);
    push_id(v, "MapInternal");
    push_p(v, ';');
    assert(all_tokens_view(*v) =~= start + client_uses());
}

/// The tokens of `client_lets`.
fn push_lets(v: &mut Vec<TokenTree>)
    ensures
        all_tokens_view(*final(v)) == all_tokens_view(*old(v)) + client_lets(),
{
    let ghost start = all_tokens_view(*v);
    let mut id_arg: Vec<TokenTree> = Vec::new();
    push_id(&mut id_arg, "context");
    push_p(&mut id_arg, '.');
    push_id(&mut id_arg, "id");
    assert(all_tokens_view(id_arg) =~= seq![id_tv("context"@), p_tv('.'), id_tv("id"@)]);
    push_id(v, "let");
    push_id(v, "mut");
    push_id(v, "children");
    push_p(v, '=');
    push_id(v, "context");
    push_p(v, '.');
    push_id(v, "children");
    push_p(v, '.');
    push_id(v, "into_iter");
    push_token(v, unit_token());
    push_p(v, ';');
    push_id(v, "let");
    push_id(v, "scope_id");
    push_p(v, '=');
    push_id(v, "Rc");
    push_path_sep(v);
    push_id(v, "new");
    push_token(v, group(Delimiter::Parenthesis, id_arg));
    push_p(v, ';');
    assert(all_tokens_view(*v) =~= start + client_lets());
}

/// The block of `component_block(name)`.
fn take_back(name: &str) -> (t: TokenTree)
    ensures
        crate::tokens::token_view(t) == component_block(name@),
{
    let mut message: Vec<TokenTree> = Vec::new();
    push_token(
        &mut message,
        TokenTree::Literal(
            string_literal("retrieve all child data: client and server child lists don't match"),
        ),
    );
    assert(all_tokens_view(message) =~= seq![
        TokenView::Literal(string_literal_text(missing_child_message())),
    ]);
    let mut bytes: Vec<TokenTree> = Vec::new();
    push_p(&mut bytes, '&');
    push_id(&mut bytes, "child");
    push_p(&mut bytes, '.');
    push_id(&mut bytes, "component");
    assert(all_tokens_view(bytes) =~= seq![
        p_tv('&'),
        id_tv("child"@),
        p_tv('.'),
        id_tv("component"@),
    ]);
    let mut failure: Vec<TokenTree> = Vec::new();
    push_token(&mut failure, TokenTree::Literal(string_literal("Couldn't deserialize component")));
    assert(all_tokens_view(failure) =~= seq![
        TokenView::Literal(string_literal_text("Couldn't deserialize component"@)),
    ]);
    let mut context: Vec<TokenTree> = Vec::new();
    push_id(&mut context, "child");
    push_p(&mut context, '.');
    push_id(&mut context, "render_context");
    assert(all_tokens_view(context) =~= seq![
        id_tv("child"@),
        p_tv('.'),
        id_tv("render_context"@),
    ]);
    let mut b: Vec<TokenTree> = Vec::new();
    push_id(&mut b, "let");
    push_id(&mut b, "child");
    push_p(&mut b, '=');
    push_id(&mut b, "children");
    push_p(&mut b, '.');
    push_id(&mut b, "next");
    push_token(&mut b, unit_token());
    push_p(&mut b, '.');
    push_id(&mut b, "expect_internal");
    push_token(&mut b, group(Delimiter::Parenthesis, message));
    push_p(&mut b, ';');
    push_id(&mut b, "let");
    push_id(&mut b, "mut");
    push_id(&mut b, "component");
    push_p(&mut b, ':');
    push_id(&mut b, name);
    push_p(&mut b, '=');
    push_id(&mut b, "shared");
    push_path_sep(&mut b);
    push_id(&mut b, "postcard");
    push_path_sep(&mut b);
    push_id(&mut b, "from_bytes");
    push_token(&mut b, group(Delimiter::Parenthesis, bytes));
    push_p(&mut b, '.');
    push_id(&mut b, "expect");
    push_token(&mut b, group(Delimiter::Parenthesis, failure));
    push_p(&mut b, ';');
    push_id(&mut b, "component");
    push_p(&mut b, '.');
    push_id(&mut b, "render");
    push_token(&mut b, group(Delimiter::Parenthesis, context));
    push_p(&mut b, ';');
    assert(all_tokens_view(b) =~= component_block_body(name@));
    group(Delimiter::Brace, b)
}

/// The client code of the view `tree`, its elements numbered from 0 on: the
/// prelude, a block that takes back each component, then each block of code.
pub fn generate(tree: &Element) -> (r: Vec<TokenTree>)
    ensures
        all_tokens_view(r) == client_tokens(spec_item_data(element_view(*tree), 0).0),
{
    let (data, _) = Data::from_element(tree, 0);
    let mut v: Vec<TokenTree> = Vec::new();
    push_uses(&mut v);
    push_lets(&mut v);
    let ghost prelude = all_tokens_view(v);
    assert(prelude =~= client_prelude());
    let mut i: usize = 0;
    while i < data.components.len()
        invariant
            i <= data.components@.len(),
            all_tokens_view(v) == prelude + component_blocks(
                strings_view(data.components@).take(i as int),
            ),
        decreases data.components@.len() - i,
    {
        push_token(&mut v, take_back(data.components[i].as_str()));
        assert(strings_view(data.components@).take(i + 1).drop_last() =~= strings_view(
            data.components@,
        ).take(i as int));
        i = i + 1;
    }
    assert(strings_view(data.components@).take(i as int) =~= strings_view(data.components@));
    let ghost head = all_tokens_view(v);
    let mut j: usize = 0;
    while j < data.reactivity.len()
        invariant
            j <= data.reactivity@.len(),
            all_tokens_view(v) == head + code_blocks(blocks_view(data.reactivity@).take(j as int)),
        decreases data.reactivity@.len() - j,
    {
        let ghost before = all_tokens_view(v);
        if j > 0 {
            push_p(&mut v, ';');
        }
        let inner = crate::tokens::clone_tokens(&data.reactivity[j]);
        push_token(&mut v, group(Delimiter::Brace, inner));
        let ghost taken = blocks_view(data.reactivity@).take(j + 1);
        assert(taken.drop_last() =~= blocks_view(data.reactivity@).take(j as int));
        assert(taken.last() == all_tokens_view(data.reactivity@[j as int]));
        if j == 0 {
            assert(all_tokens_view(v) =~= head + code_blocks(taken));
        } else {
            assert(all_tokens_view(v) =~= head + code_blocks(taken));
        }
        j = j + 1;
    }
    assert(blocks_view(data.reactivity@).take(j as int) =~= blocks_view(data.reactivity@));
    v
}

} // verus!
