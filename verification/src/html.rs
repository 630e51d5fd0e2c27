//! The first form of the view grammar: elements whose attributes are kept in the
//! order in which they are written, and the HTML format string of an element.

pub mod parse;
pub mod client;
pub mod server;

use vstd::prelude::*;
use crate::entries::{entries_map, insert_entry, keys_distinct};
use crate::text::{push_char, push_str};
use crate::tokens::{
    lemma_tokens_view_index, string_literal, string_literal_text, token_view, tokens_view,
    Delimiter, Expr, Spacing, TokenTree, TokenView,
};
use crate::view::parse::element::attributes::{exprs_view, get_call};
use crate::macros::{cfg_attribute, id_tv, p_tv, push_id, push_p, wasm_condition, wasm_condition_tokens};
use crate::tokens::{all_tokens_view, group, path_sep, push_path_sep, push_token};

verus! {

/// The value of an attribute: an expression, or a store (`$store`) it follows.
pub enum AttributeValue {
    Reactive(Expr),
    Static(Expr),
}

/// An attribute as written: `key = value`.
pub struct Attribute {
    pub key: String,
    pub value: AttributeValue,
}

/// The attributes of an element, in the order in which they are written.
pub struct Attributes {
    pub keys: Vec<String>,
    pub values: Vec<Expr>,
    /// The element is reactive (it listens to an event or follows a store).
    pub reactive: bool,
    /// The attributes bound to a store, each with the store.
    pub reactive_attributes: Vec<(String, Expr)>,
}

/// The attributes of an element, as mathematical values.
pub struct AttributesView {
    pub keys: Seq<Seq<char>>,
    pub values: Seq<Seq<TokenView>>,
    pub reactive: bool,
    pub reactive_attributes: Map<Seq<char>, Seq<TokenView>>,
}

impl View for Attributes {
    type V = AttributesView;

    open spec fn view(&self) -> AttributesView {
        AttributesView {
            keys: keys_view(self.keys@),
            values: values_view(self.values@),
            reactive: self.reactive,
            reactive_attributes: exprs_view(entries_map(self.reactive_attributes@)),
        }
    }
}

/// No attributes.
pub open spec fn empty_attributes() -> AttributesView {
    AttributesView {
        keys: Seq::empty(),
        values: Seq::empty(),
        reactive: false,
        reactive_attributes: Map::empty(),
    }
}

/// Whether `key` starts with `on:`.
pub open spec fn is_event_key(key: Seq<char>) -> bool {
    key.len() >= 3 && key.subrange(0, 3) == seq!['o', 'n', ':']
}

/// Adding one attribute as written: a static one is added at the end, unless it is
/// an event listener, which only makes the element reactive; one bound to a store
/// keeps the store among the reactive attributes and takes its current value.
pub open spec fn spec_add_attribute(a: AttributesView, key: Seq<char>, value: AttributeValue) -> AttributesView {
    match value {
        AttributeValue::Static(e) => if is_event_key(key) {
            AttributesView { reactive: true, ..a }
        } else {
            AttributesView { keys: a.keys.push(key), values: a.values.push(e@), ..a }
        },
        AttributeValue::Reactive(e) => AttributesView {
            keys: a.keys.push(key),
            values: a.values.push(get_call(e@)),
            reactive_attributes: a.reactive_attributes.insert(key, e@),
            ..a
        },
    }
}

/// Adding the attributes `list` in order, from `a` on.
pub open spec fn spec_add_attributes(a: AttributesView, list: Seq<Attribute>) -> AttributesView
    decreases list.len(),
{
    if list.len() == 0 {
        a
    } else {
        spec_add_attribute(spec_add_attributes(a, list.drop_last()), list.last().key@, list.last().value)
    }
}

/// The values of a list of expressions.
pub open spec fn values_view(s: Seq<Expr>) -> Seq<Seq<TokenView>> {
    s.map_values(|e: Expr| e@)
}

/// The keys of a list of strings.
pub open spec fn keys_view(s: Seq<String>) -> Seq<Seq<char>> {
    s.map_values(|k: String| k@)
}

/// The characters of `data-quux-scoped-id`.
pub open spec fn scoped_id_key() -> Seq<char> {
    seq![
        'd', 'a', 't', 'a', '-', 'q', 'u', 'u', 'x', '-', 's', 'c', 'o', 'p', 'e', 'd', '-', 'i', 'd',
    ]
}

impl Attributes {
    /// Keys and values go in pairs, and no key stands twice among the reactive ones.
    pub open spec fn wf(&self) -> bool {
        &&& self.keys@.len() == self.values@.len()
        &&& keys_distinct(self.reactive_attributes@)
    }

    /// No attributes.
    pub fn new() -> (a: Attributes)
        ensures
            a.wf(),
            a@ == empty_attributes(),
    {
        let a = Attributes {
            keys: Vec::new(),
            values: Vec::new(),
            reactive: false,
            reactive_attributes: Vec::new(),
        };
        assert(entries_map(a.reactive_attributes@) =~= Map::<Seq<char>, Expr>::empty());
        assert(a@ =~= empty_attributes()) by {
            assert(keys_view(a.keys@) =~= Seq::<Seq<char>>::empty());
            assert(values_view(a.values@) =~= Seq::<Seq<TokenView>>::empty());
            assert(exprs_view(entries_map(a.reactive_attributes@)) =~= Map::<
                Seq<char>,
                Seq<TokenView>,
            >::empty());
        }
        a
    }

    /// Adds the attribute `data-quux-scoped-id` with the string `id` as its value, when
    /// the element is reactive; does nothing otherwise.
    pub fn add_scoped_id(&mut self, id: &str)
        requires
            old(self).wf(),
        ensures
            final(self).wf(),
            final(self).reactive == old(self).reactive,
            final(self).reactive_attributes == old(self).reactive_attributes,
            old(self).reactive ==> keys_view(final(self).keys@) == keys_view(old(self).keys@).push(
                scoped_id_key(),
            ) && values_view(final(self).values@) == values_view(old(self).values@).push(
                seq![TokenView::Literal(string_literal_text(id@))],
            ),
            !old(self).reactive ==> final(self).keys@ == old(self).keys@ && final(self).values@
                == old(self).values@,
    {
        if self.reactive {
            let key = String::from_str("data-quux-scoped-id");
            proof {
                reveal_strlit("data-quux-scoped-id");
                assert("data-quux-scoped-id"@ =~= scoped_id_key());
            }
            let mut tokens: Vec<TokenTree> = Vec::new();
            tokens.push(TokenTree::Literal(string_literal(id)));
            let value = Expr { tokens };
            proof {
                lemma_tokens_view_index(value.tokens, 1);
                assert(value@ =~= seq![TokenView::Literal(string_literal_text(id@))]);
            }
            let ghost keys = self.keys@;
            let ghost values = self.values@;
            self.keys.push(key);
            self.values.push(value);
            assert(keys_view(self.keys@) =~= keys_view(keys).push(scoped_id_key()));
            assert(values_view(self.values@) =~= values_view(values).push(value@));
        }
    }

    /// Adds an attribute with key `key` and value `value` at the end.
    pub fn add_entry(&mut self, key: String, value: Expr)
        requires
            old(self).wf(),
        ensures
            final(self).wf(),
            final(self).keys@ == old(self).keys@.push(key),
            final(self).values@ == old(self).values@.push(value),
            final(self).reactive == old(self).reactive,
            final(self).reactive_attributes == old(self).reactive_attributes,
    {
        self.keys.push(key);
        self.values.push(value);
    }

    /// Adds a static attribute; an event listener (`on:event`) is left out of the
    /// attributes and makes the element reactive.
    pub fn add_static_value(&mut self, key: String, value: Expr)
        requires
            old(self).wf(),
        ensures
            final(self).wf(),
            final(self).reactive_attributes == old(self).reactive_attributes,
            (key@.len() >= 3 && key@.subrange(0, 3) == seq!['o', 'n', ':']) ==> final(self).reactive
                && final(self).keys@ == old(self).keys@ && final(self).values@ == old(self).values@,
            !(key@.len() >= 3 && key@.subrange(0, 3) == seq!['o', 'n', ':']) ==> final(self).reactive
                == old(self).reactive && final(self).keys@ == old(self).keys@.push(key)
                && final(self).values@ == old(self).values@.push(value),
    {
        let n = key.as_str().unicode_len();
        let starts = n >= 3 && key.as_str().get_char(0) == 'o' && key.as_str().get_char(1) == 'n'
            && key.as_str().get_char(2) == ':';
        proof {
            if key@.len() >= 3 && key@.subrange(0, 3) == seq!['o', 'n', ':'] {
                assert(key@[0] == key@.subrange(0, 3)[0]);
                assert(key@[1] == key@.subrange(0, 3)[1]);
                assert(key@[2] == key@.subrange(0, 3)[2]);
            }
            if starts {
                assert(key@.subrange(0, 3) =~= seq!['o', 'n', ':']);
            }
        }
        if starts {
            self.reactive = true;
        } else {
            self.add_entry(key, value);
        }
    }

    /// Adds an attribute bound to the store `value`: the store is kept among the
    /// reactive attributes, and the attribute takes its current value, `value.get()`.
    pub fn add_reactive_value(&mut self, key: String, value: &Expr)
        requires
            old(self).wf(),
        ensures
            final(self).wf(),
            final(self).reactive == old(self).reactive,
            exprs_view(entries_map(final(self).reactive_attributes@)) == exprs_view(
                entries_map(old(self).reactive_attributes@),
            ).insert(key@, value@),
            final(self).keys@ == old(self).keys@.push(key),
            values_view(final(self).values@) == values_view(old(self).values@).push(
                get_call(value@),
            ),
    {
        let ghost before = entries_map(self.reactive_attributes@);
        let store = value.copy();
        let k2 = key.clone();
        insert_entry(&mut self.reactive_attributes, k2, store);
        assert(exprs_view(entries_map(self.reactive_attributes@)) =~= exprs_view(before).insert(
            key@,
            value@,
        ));
        let current = get_call_of(value);
        let ghost values = self.values@;
        self.add_entry(key, current);
        assert(values_view(self.values@) =~= values_view(values).push(get_call(value@)));
    }

    /// Adds an attribute as written, as `spec_add_attribute` says.
    pub fn add_attribute(&mut self, attribute: Attribute)
        requires
            old(self).wf(),
        ensures
            final(self).wf(),
            final(self)@ == spec_add_attribute(old(self)@, attribute.key@, attribute.value),
    {
        let Attribute { key, value } = attribute;
        let ghost before = self@;
        match value {
            AttributeValue::Static(value) => {
                self.add_static_value(key, value);
                assert(keys_view(self.keys@) =~= if is_event_key(key@) {
                    before.keys
                } else {
                    before.keys.push(key@)
                });
                assert(values_view(self.values@) =~= if is_event_key(key@) {
                    before.values
                } else {
                    before.values.push(value@)
                });
            },
            AttributeValue::Reactive(value) => {
                self.add_reactive_value(key, &value);
                assert(keys_view(self.keys@) =~= before.keys.push(key@));
            },
        }
    }

    /// The attributes as written in `attributes`, in order.
    pub fn from_attributes(attributes: Vec<Attribute>) -> (a: Attributes)
        ensures
            a.wf(),
            a@ == spec_add_attributes(empty_attributes(), attributes@),
    {
        let mut result = Attributes::new();
        let ghost start = result@;
        let ghost list = attributes@;
        let mut rest = attributes;
        let n = rest.len();
        let mut i: usize = 0;
        assert(list.skip(0) =~= list);
        assert(list.subrange(0, 0) =~= Seq::<Attribute>::empty());
        while i < n
            invariant
                n == list.len(),
                i <= n,
                rest@ == list.skip(i as int),
                result.wf(),
                start == empty_attributes(),
                spec_add_attributes(start, list.subrange(0, i as int)) == result@,
            decreases n - i,
        {
            let attribute = rest.remove(0);
            assert(attribute == list[i as int]);
            assert(rest@ =~= list.skip(i + 1));
            assert(list.subrange(0, i + 1).drop_last() =~= list.subrange(0, i as int));
            result.add_attribute(attribute);
            i = i + 1;
        }
        assert(list.subrange(0, n as int) =~= list);
        result
    }
}

/// The tokens of `value.get()`.
fn get_call_of(value: &Expr) -> (r: Expr)
    ensures
        r@ == get_call(value@),
{
    crate::view::parse::element::attributes::get_call_expr(value)
}

/// The format string of an element: `<tag key="{}"key="{}">{}</tag>`, with one
/// `key="{}"` for each key and no space between them.
pub open spec fn html_format(keys: Seq<Seq<char>>, tag_name: Seq<char>) -> Seq<char> {
    seq!['<'] + tag_name + seq![' '] + keys_format(keys) + seq!['>', '{', '}', '<', '/'] + tag_name
        + seq!['>']
}

/// `key="{}"` for each key, one after the other.
pub open spec fn keys_format(keys: Seq<Seq<char>>) -> Seq<char>
    decreases keys.len(),
{
    if keys.len() == 0 {
        Seq::empty()
    } else {
        keys_format(keys.drop_last()) + keys.last() + seq!['=', '"', '{', '}', '"']
    }
}

/// Each key adds `key="{}"` in order: the keys of two lists one after the other
/// format as the first list's, then the second's.
pub proof fn lemma_keys_format_in_order(a: Seq<Seq<char>>, b: Seq<Seq<char>>)
    ensures
        keys_format(a + b) == keys_format(a) + keys_format(b),
    decreases b.len(),
{
    if b.len() == 0 {
        assert(a + b =~= a);
    } else {
        lemma_keys_format_in_order(a, b.drop_last());
        assert((a + b).drop_last() =~= a + b.drop_last());
        assert((a + b).last() == b.last());
    }
}

/// The format string of an element with the given attribute keys and tag name, as
/// `html_format` says.
pub fn get_html_string(keys: Vec<String>, tag_name: &str) -> (s: String)
    ensures
        s@ == html_format(keys_view(keys@), tag_name@),
{
    let mut out = String::new();
    push_char(&mut out, '<');
    push_str(&mut out, tag_name);
    push_char(&mut out, ' ');
    let ghost head = seq!['<'] + tag_name@ + seq![' '];
    let ghost all = keys_view(keys@);
    let mut i: usize = 0;
    assert(all.subrange(0, 0) =~= Seq::<Seq<char>>::empty());
    assert(out@ =~= head + keys_format(all.subrange(0, 0)));
    while i < keys.len()
        invariant
            all == keys_view(keys@),
            i <= keys@.len(),
            out@ == head + keys_format(all.subrange(0, i as int)),
        decreases keys@.len() - i,
    {
        push_str(&mut out, keys[i].as_str());
        push_char(&mut out, '=');
        push_char(&mut out, '"');
        push_char(&mut out, '{');
        push_char(&mut out, '}');
        push_char(&mut out, '"');
        assert(all.subrange(0, i + 1).drop_last() =~= all.subrange(0, i as int));
        assert(all.subrange(0, i + 1).last() == keys@[i as int]@);
        assert(out@ =~= head + keys_format(all.subrange(0, i + 1)));
        i = i + 1;
    }
    assert(all.subrange(0, i as int) =~= all);
    push_char(&mut out, '>');
    push_char(&mut out, '{');
    push_char(&mut out, '}');
    push_char(&mut out, '<');
    push_char(&mut out, '/');
    push_str(&mut out, tag_name);
    push_char(&mut out, '>');
    assert(out@ =~= html_format(all, tag_name@));
    out
}

/// The code of a view: `shared::cfg_if::cfg_if! { if #[cfg(target_arch = "wasm32")]
/// { {<client>} } else { {<server>} } }`.
pub open spec fn view_tokens(client: Seq<TokenView>, server: Seq<TokenView>) -> Seq<TokenView> {
    seq![id_tv("shared"@)] + path_sep() + seq![id_tv("cfg_if"@)] + path_sep() + seq![
        id_tv("cfg_if"@),
        p_tv('!'),
        TokenView::Group(
            Delimiter::Brace,
            seq![id_tv("if"@)] + cfg_attribute(wasm_condition()) + seq![
                TokenView::Group(Delimiter::Brace, seq![TokenView::Group(Delimiter::Brace, client)]),
                id_tv("else"@),
                TokenView::Group(Delimiter::Brace, seq![TokenView::Group(Delimiter::Brace, server)]),
            ],
        ),
    ]
}

/// The code of the view `tree`: the client code (its elements numbered from 0 on)
/// and the server code (its root element also carrying `data-quux-scope-id =
/// scope_id`, its elements numbered from `id` on, its components taking the
/// suffixes of `suffixes` in order), each kept to its own build.
pub fn generate(tree: parse::Element, id: u64, suffixes: &Vec<String>) -> (r: Vec<TokenTree>)
    requires
        server::item_components(parse::Item::Element(tree)) <= suffixes@.len(),
    ensures
        exists|root: parse::Element|
            {
                &&& root.tag_name == tree.tag_name
                &&& root.children == tree.children
                &&& root.attributes@.drop_last() == tree.attributes@
                &&& server::is_scope_attribute(root.attributes@.last())
                &&& all_tokens_view(r) == view_tokens(
                    client::client_tokens(
                        client::spec_item_data(client::element_view(tree), 0).0,
                    ),
                    server::server_tokens(
                        server::server_item(
                            parse::Item::Element(root),
                            id,
                            0,
                            client::strings_view(suffixes@),
                        ).0,
                    ),
                )
            },
{
    let client_code = client::generate(&tree);
    let server_code = server::generate(tree, id, suffixes);
    let ghost c = all_tokens_view(client_code);
    let ghost s = all_tokens_view(server_code);
    let mut client_block: Vec<TokenTree> = Vec::new();
    push_token(&mut client_block, group(Delimiter::Brace, client_code));
    assert(all_tokens_view(client_block) =~= seq![TokenView::Group(Delimiter::Brace, c)]);
    let mut server_block: Vec<TokenTree> = Vec::new();
    push_token(&mut server_block, group(Delimiter::Brace, server_code));
    assert(all_tokens_view(server_block) =~= seq![TokenView::Group(Delimiter::Brace, s)]);
    let mut cfg: Vec<TokenTree> = Vec::new();
    push_id(&mut cfg, "cfg");
    push_token(&mut cfg, group(Delimiter::Parenthesis, wasm_condition_tokens()));
    assert(all_tokens_view(cfg) =~= seq![
        id_tv("cfg"@),
        TokenView::Group(Delimiter::Parenthesis, wasm_condition()),
    ]);
    let mut branches: Vec<TokenTree> = Vec::new();
    push_id(&mut branches, "if");
    push_p(&mut branches, '#');
    push_token(&mut branches, group(Delimiter::Bracket, cfg));
    push_token(&mut branches, group(Delimiter::Brace, client_block));
    push_id(&mut branches, "else");
    push_token(&mut branches, group(Delimiter::Brace, server_block));
    assert(all_tokens_view(branches) =~= seq![id_tv("if"@)] + cfg_attribute(wasm_condition()) + seq![
        TokenView::Group(Delimiter::Brace, seq![TokenView::Group(Delimiter::Brace, c)]),
        id_tv("else"@),
        TokenView::Group(Delimiter::Brace, seq![TokenView::Group(Delimiter::Brace, s)]),
    ]);
    let ghost branches_v = all_tokens_view(branches);
    let mut v: Vec<TokenTree> = Vec::new();
    push_id(&mut v, "shared");
    push_path_sep(&mut v);
    push_id(&mut v, "cfg_if");
    push_path_sep(&mut v);
    push_id(&mut v, "cfg_if");
    push_p(&mut v, '!');
    push_token(&mut v, group(Delimiter::Brace, branches));
    assert(all_tokens_view(v) =~= view_tokens(c, s));
    v
}

} // verus!
