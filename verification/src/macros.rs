//! The attributes that keep an item to one side of the build: the server, or the
//! client (WebAssembly).

use vstd::prelude::*;

pub mod init_components;
pub mod routes;
use crate::tokens::{
    all_tokens_view, append_tokens, group, ident, punct, push_token, string_literal,
    string_literal_text, Delimiter, Spacing, TokenTree, TokenView,
};
use crate::text::{lowercase, to_lowercase};

verus! {

/// The tokens of `#[cfg(<condition>)]`.
pub open spec fn cfg_attribute(condition: Seq<TokenView>) -> Seq<TokenView> {
    seq![
        TokenView::Punct('#', Spacing::Alone),
        TokenView::Group(
            Delimiter::Bracket,
            seq![TokenView::Ident("cfg"@), TokenView::Group(Delimiter::Parenthesis, condition)],
        ),
    ]
}

/// The tokens of `target_arch = "wasm32"`.
pub open spec fn wasm_condition() -> Seq<TokenView> {
    seq![
        TokenView::Ident("target_arch"@),
        TokenView::Punct('=', Spacing::Alone),
        TokenView::Literal("\"wasm32\""@),
    ]
}

/// The tokens of `target_arch = "wasm32"`.
pub(crate) fn wasm_condition_tokens() -> (v: Vec<TokenTree>)
    ensures
        all_tokens_view(v) == wasm_condition(),
{
    let mut v: Vec<TokenTree> = Vec::new();
    push_token(&mut v, ident("target_arch"));
    push_token(&mut v, punct('='));
    push_token(&mut v, TokenTree::Literal(String::from_str("\"wasm32\"")));
    assert(all_tokens_view(v) =~= wasm_condition());
    v
}

/// The tokens of `#[cfg(<condition>)]` followed by the item.
fn with_cfg(condition: Vec<TokenTree>, item: &Vec<TokenTree>) -> (v: Vec<TokenTree>)
    ensures
        all_tokens_view(v) == cfg_attribute(all_tokens_view(condition)) + all_tokens_view(*item),
{
    let ghost c = all_tokens_view(condition);
    let mut inner: Vec<TokenTree> = Vec::new();
    push_token(&mut inner, ident("cfg"));
    push_token(&mut inner, group(Delimiter::Parenthesis, condition));
    assert(all_tokens_view(inner) =~= seq![
        TokenView::Ident("cfg"@),
        TokenView::Group(Delimiter::Parenthesis, c),
    ]);
    let mut v: Vec<TokenTree> = Vec::new();
    push_token(&mut v, punct('#'));
    push_token(&mut v, group(Delimiter::Bracket, inner));
    assert(all_tokens_view(v) =~= cfg_attribute(c));
    append_tokens(&mut v, item);
    v
}

/// The item, kept to the server build: `#[cfg(not(target_arch = "wasm32"))]`
/// followed by the item.
pub fn server(item: &Vec<TokenTree>) -> (v: Vec<TokenTree>)
    ensures
        all_tokens_view(v) == cfg_attribute(
            seq![
                TokenView::Ident("not"@),
                TokenView::Group(Delimiter::Parenthesis, wasm_condition()),
            ],
        ) + all_tokens_view(*item),
{
    let mut condition: Vec<TokenTree> = Vec::new();
    push_token(&mut condition, ident("not"));
    push_token(&mut condition, group(Delimiter::Parenthesis, wasm_condition_tokens()));
    assert(all_tokens_view(condition) =~= seq![
        TokenView::Ident("not"@),
        TokenView::Group(Delimiter::Parenthesis, wasm_condition()),
    ]);
    with_cfg(condition, item)
}

/// The item, kept to the client build: `#[cfg(target_arch = "wasm32")]` followed by
/// the item.
pub fn client(item: &Vec<TokenTree>) -> (v: Vec<TokenTree>)
    ensures
        all_tokens_view(v) == cfg_attribute(wasm_condition()) + all_tokens_view(*item),
{
    with_cfg(wasm_condition_tokens(), item)
}

/// The token of the identifier `s`.
pub open spec fn id_tv(s: Seq<char>) -> TokenView {
    TokenView::Ident(s)
}

/// The token of the punctuation character `c`, not joined to the next one.
pub open spec fn p_tv(c: char) -> TokenView {
    TokenView::Punct(c, Spacing::Alone)
}

/// The tokens of the lifetime `'name`.
pub open spec fn lifetime_tv(name: Seq<char>) -> Seq<TokenView> {
    seq![TokenView::Punct('\'', Spacing::Joint), TokenView::Ident(name)]
}

/// The tokens of `->`.
pub open spec fn arrow_tv() -> Seq<TokenView> {
    seq![TokenView::Punct('-', Spacing::Joint), p_tv('>')]
}

/// The tokens of `HashMap<String, String>`.
pub open spec fn map_type_tv() -> Seq<TokenView> {
    seq![id_tv("HashMap"@), p_tv('<'), id_tv("String"@), p_tv(','), id_tv("String"@), p_tv('>')]
}

/// The tokens of `(&self)`.
pub open spec fn self_arg_tv() -> TokenView {
    TokenView::Group(Delimiter::Parenthesis, seq![p_tv('&'), id_tv("self"@)])
}

/// The tokens of the declaration of an element type named `name` whose tag is
/// `tag`:
/// `#[derive(Clone, Default)] pub struct <name><'a> { pub children: Vec<&'a dyn Element>,
/// pub attributes: HashMap<String, String>, }`, then
/// `impl<'a> Element for <name><'a> { fn get_tag_name(&self) -> &'static str { "<tag>" }
/// fn get_attributes(&self) -> HashMap<String, String> { self.attributes.clone() }
/// fn get_children(&self) -> &[&dyn Element] { &self.children } }`.
pub open spec fn spec_element_declaration(name: Seq<char>, tag: Seq<char>) -> Seq<TokenView> {
    let fields = seq![id_tv("pub"@), id_tv("children"@), p_tv(':'), id_tv("Vec"@), p_tv('<'), p_tv('&')]
        + lifetime_tv("a"@) + seq![id_tv("dyn"@), id_tv("Element"@), p_tv('>'), p_tv(','), id_tv("pub"@),
        id_tv("attributes"@), p_tv(':')] + map_type_tv() + seq![p_tv(',')];
    let get_tag_name = seq![id_tv("fn"@), id_tv("get_tag_name"@), self_arg_tv()] + arrow_tv() + seq![
        p_tv('&'),
    ] + lifetime_tv("static"@) + seq![
        id_tv("str"@),
        TokenView::Group(Delimiter::Brace, seq![TokenView::Literal(string_literal_text(tag))]),
    ];
    let get_attributes = seq![id_tv("fn"@), id_tv("get_attributes"@), self_arg_tv()] + arrow_tv()
        + map_type_tv() + seq![
        TokenView::Group(
            Delimiter::Brace,
            seq![
                id_tv("self"@),
                p_tv('.'),
                id_tv("attributes"@),
                p_tv('.'),
                id_tv("clone"@),
                TokenView::Group(Delimiter::Parenthesis, Seq::empty()),
            ],
        ),
    ];
    let get_children = seq![id_tv("fn"@), id_tv("get_children"@), self_arg_tv()] + arrow_tv() + seq![
        p_tv('&'),
        TokenView::Group(Delimiter::Bracket, seq![p_tv('&'), id_tv("dyn"@), id_tv("Element"@)]),
        TokenView::Group(Delimiter::Brace, seq![p_tv('&'), id_tv("self"@), p_tv('.'), id_tv("children"@)]),
    ];
    seq![
        p_tv('#'),
        TokenView::Group(
            Delimiter::Bracket,
            seq![
                id_tv("derive"@),
                TokenView::Group(
                    Delimiter::Parenthesis,
                    seq![id_tv("Clone"@), p_tv(','), id_tv("Default"@)],
                ),
            ],
        ),
        id_tv("pub"@),
        id_tv("struct"@),
        id_tv(name),
        p_tv('<'),
    ] + lifetime_tv("a"@) + seq![p_tv('>'), TokenView::Group(Delimiter::Brace, fields), id_tv("impl"@), p_tv('<')]
        + lifetime_tv("a"@) + seq![p_tv('>'), id_tv("Element"@), id_tv("for"@), id_tv(name), p_tv('<')]
        + lifetime_tv("a"@) + seq![
        p_tv('>'),
        TokenView::Group(Delimiter::Brace, get_tag_name + get_attributes + get_children),
    ]
}

/// Appends the identifier `s`.
pub(crate) fn push_id(v: &mut Vec<TokenTree>, s: &str)
    ensures
        all_tokens_view(*final(v)) == all_tokens_view(*old(v)).push(id_tv(s@)),
{
    push_token(v, ident(s));
}

/// Appends the punctuation character `c`, not joined to the next one.
pub(crate) fn push_p(v: &mut Vec<TokenTree>, c: char)
    ensures
        all_tokens_view(*final(v)) == all_tokens_view(*old(v)).push(p_tv(c)),
{
    push_token(v, punct(c));
}

/// Appends the lifetime `'name`.
fn push_lifetime(v: &mut Vec<TokenTree>, name: &str)
    ensures
        all_tokens_view(*final(v)) == all_tokens_view(*old(v)) + lifetime_tv(name@),
{
    let ghost start = all_tokens_view(*v);
    push_token(v, TokenTree::Punct('\'', Spacing::Joint));
    push_id(v, name);
    assert(all_tokens_view(*v) =~= start + lifetime_tv(name@));
}

/// Appends `->`.
pub(crate) fn push_arrow(v: &mut Vec<TokenTree>)
    ensures
        all_tokens_view(*final(v)) == all_tokens_view(*old(v)) + arrow_tv(),
{
    let ghost start = all_tokens_view(*v);
    push_token(v, TokenTree::Punct('-', Spacing::Joint));
    push_p(v, '>');
    assert(all_tokens_view(*v) =~= start + arrow_tv());
}

/// Appends `HashMap<String, String>`.
fn push_map_type(v: &mut Vec<TokenTree>)
    ensures
        all_tokens_view(*final(v)) == all_tokens_view(*old(v)) + map_type_tv(),
{
    let ghost start = all_tokens_view(*v);
    push_id(v, "HashMap");
    push_p(v, '<');
    push_id(v, "String");
    push_p(v, ',');
    push_id(v, "String");
    push_p(v, '>');
    assert(all_tokens_view(*v) =~= start + map_type_tv());
}

/// Appends `fn <name>(&self) ->`.
fn push_method_head(v: &mut Vec<TokenTree>, name: &str)
    ensures
        all_tokens_view(*final(v)) == all_tokens_view(*old(v)) + seq![id_tv("fn"@), id_tv(name@), self_arg_tv()]
            + arrow_tv(),
{
    let ghost start = all_tokens_view(*v);
    push_id(v, "fn");
    push_id(v, name);
    let mut arg: Vec<TokenTree> = Vec::new();
    push_p(&mut arg, '&');
    push_id(&mut arg, "self");
    assert(all_tokens_view(arg) =~= seq![p_tv('&'), id_tv("self"@)]);
    push_token(v, group(Delimiter::Parenthesis, arg));
    push_arrow(v);
    assert(all_tokens_view(*v) =~= start + seq![id_tv("fn"@), id_tv(name@), self_arg_tv()] + arrow_tv());
}

/// The tokens that declare an element type named `name`, whose tag is `name` in
/// lower case, as `spec_element_declaration` says.
pub fn element_declaration(name: &str) -> (r: Vec<TokenTree>)
    ensures
        all_tokens_view(r) == spec_element_declaration(name@, lowercase(name@)),
{
    let tag = to_lowercase(name);
    // the fields
    let mut fields: Vec<TokenTree> = Vec::new();
    push_id(&mut fields, "pub");
    push_id(&mut fields, "children");
    push_p(&mut fields, ':');
    push_id(&mut fields, "Vec");
    push_p(&mut fields, '<');
    push_p(&mut fields, '&');
    push_lifetime(&mut fields, "a");
    push_id(&mut fields, "dyn");
    push_id(&mut fields, "Element");
    push_p(&mut fields, '>');
    push_p(&mut fields, ',');
    push_id(&mut fields, "pub");
    push_id(&mut fields, "attributes");
    push_p(&mut fields, ':');
    push_map_type(&mut fields);
    push_p(&mut fields, ',');
    let ghost fields_view = seq![id_tv("pub"@), id_tv("children"@), p_tv(':'), id_tv("Vec"@), p_tv('<'), p_tv('&')]
        + lifetime_tv("a"@) + seq![id_tv("dyn"@), id_tv("Element"@), p_tv('>'), p_tv(','), id_tv("pub"@),
        id_tv("attributes"@), p_tv(':')] + map_type_tv() + seq![p_tv(',')];
    assert(all_tokens_view(fields) =~= fields_view);
    // fn get_tag_name
    let mut body: Vec<TokenTree> = Vec::new();
    push_method_head(&mut body, "get_tag_name");
    push_p(&mut body, '&');
    push_lifetime(&mut body, "static");
    push_id(&mut body, "str");
    let mut tag_body: Vec<TokenTree> = Vec::new();
    push_token(&mut tag_body, TokenTree::Literal(string_literal(tag.as_str())));
    assert(all_tokens_view(tag_body) =~= seq![TokenView::Literal(string_literal_text(lowercase(name@)))]);
    push_token(&mut body, group(Delimiter::Brace, tag_body));
    let ghost g1 = seq![id_tv("fn"@), id_tv("get_tag_name"@), self_arg_tv()] + arrow_tv() + seq![
        p_tv('&'),
    ] + lifetime_tv("static"@) + seq![
        id_tv("str"@),
        TokenView::Group(Delimiter::Brace, seq![TokenView::Literal(string_literal_text(lowercase(name@)))]),
    ];
    assert(all_tokens_view(body) =~= g1);
    // fn get_attributes
    push_method_head(&mut body, "get_attributes");
    push_map_type(&mut body);
    let mut attributes_body: Vec<TokenTree> = Vec::new();
    push_id(&mut attributes_body, "self");
    push_p(&mut attributes_body, '.');
    push_id(&mut attributes_body, "attributes");
    push_p(&mut attributes_body, '.');
    push_id(&mut attributes_body, "clone");
    let empty: Vec<TokenTree> = Vec::new();
    assert(all_tokens_view(empty) =~= Seq::<TokenView>::empty());
    push_token(&mut attributes_body, group(Delimiter::Parenthesis, empty));
    let ghost ab = seq![
        id_tv("self"@),
        p_tv('.'),
        id_tv("attributes"@),
        p_tv('.'),
        id_tv("clone"@),
        TokenView::Group(Delimiter::Parenthesis, Seq::empty()),
    ];
    assert(all_tokens_view(attributes_body) =~= ab);
    push_token(&mut body, group(Delimiter::Brace, attributes_body));
    let ghost g2 = seq![id_tv("fn"@), id_tv("get_attributes"@), self_arg_tv()] + arrow_tv() + map_type_tv()
        + seq![TokenView::Group(Delimiter::Brace, ab)];
    assert(all_tokens_view(body) =~= g1 + g2);
    // fn get_children
    push_method_head(&mut body, "get_children");
    push_p(&mut body, '&');
    let mut slice: Vec<TokenTree> = Vec::new();
    push_p(&mut slice, '&');
    push_id(&mut slice, "dyn");
    push_id(&mut slice, "Element");
    assert(all_tokens_view(slice) =~= seq![p_tv('&'), id_tv("dyn"@), id_tv("Element"@)]);
    push_token(&mut body, group(Delimiter::Bracket, slice));
    let mut children_body: Vec<TokenTree> = Vec::new();
    push_p(&mut children_body, '&');
    push_id(&mut children_body, "self");
    push_p(&mut children_body, '.');
    push_id(&mut children_body, "children");
    assert(all_tokens_view(children_body) =~= seq![p_tv('&'), id_tv("self"@), p_tv('.'), id_tv("children"@)]);
    push_token(&mut body, group(Delimiter::Brace, children_body));
    let ghost g3 = seq![id_tv("fn"@), id_tv("get_children"@), self_arg_tv()] + arrow_tv() + seq![
        p_tv('&'),
        TokenView::Group(Delimiter::Bracket, seq![p_tv('&'), id_tv("dyn"@), id_tv("Element"@)]),
        TokenView::Group(Delimiter::Brace, seq![p_tv('&'), id_tv("self"@), p_tv('.'), id_tv("children"@)]),
    ];
    assert(all_tokens_view(body) =~= g1 + g2 + g3);
    // the derive attribute
    let mut derived: Vec<TokenTree> = Vec::new();
    push_id(&mut derived, "Clone");
    push_p(&mut derived, ',');
    push_id(&mut derived, "Default");
    assert(all_tokens_view(derived) =~= seq![id_tv("Clone"@), p_tv(','), id_tv("Default"@)]);
    let mut attribute: Vec<TokenTree> = Vec::new();
    push_id(&mut attribute, "derive");
    push_token(&mut attribute, group(Delimiter::Parenthesis, derived));
    assert(all_tokens_view(attribute) =~= seq![
        id_tv("derive"@),
        TokenView::Group(
            Delimiter::Parenthesis,
            seq![id_tv("Clone"@), p_tv(','), id_tv("Default"@)],
        ),
    ]);
    // the whole
    let mut r: Vec<TokenTree> = Vec::new();
    push_p(&mut r, '#');
    push_token(&mut r, group(Delimiter::Bracket, attribute));
    push_id(&mut r, "pub");
    push_id(&mut r, "struct");
    push_id(&mut r, name);
    push_p(&mut r, '<');
    push_lifetime(&mut r, "a");
    push_p(&mut r, '>');
    push_token(&mut r, group(Delimiter::Brace, fields));
    push_id(&mut r, "impl");
    push_p(&mut r, '<');
    push_lifetime(&mut r, "a");
    push_p(&mut r, '>');
    push_id(&mut r, "Element");
    push_id(&mut r, "for");
    push_id(&mut r, name);
    push_p(&mut r, '<');
    push_lifetime(&mut r, "a");
    push_p(&mut r, '>');
    push_token(&mut r, group(Delimiter::Brace, body));
    assert(all_tokens_view(r) =~= spec_element_declaration(name@, lowercase(name@)));
    r
}

} // verus!
