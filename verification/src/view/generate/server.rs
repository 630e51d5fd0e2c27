//! The code that renders a view on the server: which elements close themselves,
//! the map of attributes an element is rendered with, and the id that lets the
//! client find a reactive element.

pub mod element;

use vstd::prelude::*;
use crate::entries::insert_entry;
use crate::text::{lowercase, str_eq, to_lowercase};
use crate::tokens::{
    all_tokens_view, append_tokens, group, ident, path_sep, punct, push_path_sep, push_token,
    Delimiter, Expr, Spacing, TokenTree, TokenView,
};
use crate::view::parse::element::attributes::{
    entries_view, lemma_exprs_view_insert, Attributes, AttributesView,
};
use crate::entries::{entries_map, key_index, keys_distinct};
use crate::tokens::{clone_tokens, string_literal, string_literal_text};

verus! {

/// The tag names, in lower case, of the elements that close themselves (`<br />`).
pub open spec fn is_self_closing_name(name: Seq<char>) -> bool {
    ||| name == "area"@
    ||| name == "base"@
    ||| name == "br"@
    ||| name == "col"@
    ||| name == "embed"@
    ||| name == "hr"@
    ||| name == "img"@
    ||| name == "input"@
    ||| name == "link"@
    ||| name == "source"@
    ||| name == "track"@
    ||| name == "wbr"@
}

/// The HTML void elements: those that take no content and close themselves.
pub open spec fn void_elements() -> Set<Seq<char>> {
    set![
        "area"@, "base"@, "br"@, "col"@, "embed"@, "hr"@, "img"@, "input"@, "link"@, "source"@,
        "track"@, "wbr"@,
    ]
}

/// The elements that close themselves are exactly the HTML void elements.
pub proof fn lemma_self_closing_is_void(name: Seq<char>)
    ensures
        is_self_closing_name(name) <==> void_elements().contains(name),
{
}

/// Whether the element `tag_name` closes itself, whatever the case of its letters.
pub fn is_self_closing(tag_name: &str) -> (r: bool)
    ensures
        r == is_self_closing_name(lowercase(tag_name@)),
{
    let lower = to_lowercase(tag_name);
    let s = lower.as_str();
    str_eq(s, "area") || str_eq(s, "base") || str_eq(s, "br") || str_eq(s, "col") || str_eq(
        s,
        "embed",
    ) || str_eq(s, "hr") || str_eq(s, "img") || str_eq(s, "input") || str_eq(s, "link")
        || str_eq(s, "source") || str_eq(s, "track") || str_eq(s, "wbr")
}

/// The token of the identifier `name`.
pub open spec fn id_token(name: &str) -> TokenView {
    TokenView::Ident(name@)
}

/// The token of the punctuation character `c`.
pub open spec fn punct_token(c: char) -> TokenView {
    TokenView::Punct(c, Spacing::Alone)
}

/// The tokens of `Some((key, value))`.
pub open spec fn pair_tokens(key: Seq<TokenView>, value: Seq<TokenView>) -> Seq<TokenView> {
    seq![
        id_token("Some"),
        TokenView::Group(
            Delimiter::Parenthesis,
            seq![TokenView::Group(Delimiter::Parenthesis, key + seq![punct_token(',')] + value)],
        ),
    ]
}

/// The tokens of the pairs `Some((key, value))`, separated by commas.
pub open spec fn joined_pairs(pairs: Seq<(Seq<TokenView>, Seq<TokenView>)>) -> Seq<TokenView>
    decreases pairs.len(),
{
    if pairs.len() == 0 {
        Seq::empty()
    } else if pairs.len() == 1 {
        pair_tokens(pairs[0].0, pairs[0].1)
    } else {
        joined_pairs(pairs.drop_last()) + seq![punct_token(',')] + pair_tokens(
            pairs.last().0,
            pairs.last().1,
        )
    }
}

/// The tokens of the entry that gives an element within a loop its loop id:
/// `&if let Some(id) = for_loop_id { Some(String::from("data-quux-for-id"), id) } else { None }`.
pub open spec fn for_loop_id_tokens() -> Seq<TokenView> {
    seq![
        punct_token('&'),
        id_token("if"),
        id_token("let"),
        id_token("Some"),
        TokenView::Group(Delimiter::Parenthesis, seq![id_token("id")]),
        punct_token('='),
        id_token("for_loop_id"),
        TokenView::Group(
            Delimiter::Brace,
            seq![
                id_token("Some"),
                TokenView::Group(
                    Delimiter::Parenthesis,
                    seq![id_token("String")] + path_sep() + seq![
                        id_token("from"),
                        TokenView::Group(
                            Delimiter::Parenthesis,
                            seq![TokenView::Literal("\"data-quux-for-id\""@)],
                        ),
                        punct_token(','),
                        id_token("id"),
                    ],
                ),
            ],
        ),
        id_token("else"),
        TokenView::Group(Delimiter::Brace, seq![id_token("None")]),
    ]
}

/// The tokens of the expression that builds a `HashMap` of the pairs, and of the
/// loop id entry when `include_for_loop_id` holds:
/// `std::collections::HashMap::from_iter(vec![Some((k, v)), .., <entry>].into_iter().flatten())`.
pub open spec fn spec_hashmap_tokens(
    pairs: Seq<(Seq<TokenView>, Seq<TokenView>)>,
    include_for_loop_id: bool,
) -> Seq<TokenView> {
    seq![id_token("std")] + path_sep() + seq![id_token("collections")] + path_sep() + seq![
        id_token("HashMap"),
    ] + path_sep() + seq![
        id_token("from_iter"),
        TokenView::Group(
            Delimiter::Parenthesis,
            seq![
                id_token("vec"),
                punct_token('!'),
                TokenView::Group(
                    Delimiter::Bracket,
                    joined_pairs(pairs) + seq![punct_token(',')] + if include_for_loop_id {
                        for_loop_id_tokens()
                    } else {
                        Seq::empty()
                    },
                ),
                punct_token('.'),
                id_token("into_iter"),
                TokenView::Group(Delimiter::Parenthesis, Seq::empty()),
                punct_token('.'),
                id_token("flatten"),
                TokenView::Group(Delimiter::Parenthesis, Seq::empty()),
            ],
        ),
    ]
}

/// The values of key and value token lists.
pub open spec fn pairs_view(pairs: Seq<(Vec<TokenTree>, Vec<TokenTree>)>) -> Seq<
    (Seq<TokenView>, Seq<TokenView>),
> {
    pairs.map_values(|p: (Vec<TokenTree>, Vec<TokenTree>)| (all_tokens_view(p.0), all_tokens_view(p.1)))
}

/// The empty group `()`.
fn empty_parens() -> (t: TokenTree)
    ensures
        crate::tokens::token_view(t) == TokenView::Group(Delimiter::Parenthesis, Seq::empty()),
{
    let inner: Vec<TokenTree> = Vec::new();
    assert(all_tokens_view(inner) =~= Seq::<TokenView>::empty());
    group(Delimiter::Parenthesis, inner)
}

/// The tokens of `for_loop_id_tokens`.
fn for_loop_id_expr() -> (v: Vec<TokenTree>)
    ensures
        all_tokens_view(v) == for_loop_id_tokens(),
{
    let mut binding: Vec<TokenTree> = Vec::new();
    push_token(&mut binding, ident("id"));
    assert(all_tokens_view(binding) =~= seq![id_token("id")]);
    let mut text: Vec<TokenTree> = Vec::new();
    push_token(&mut text, TokenTree::Literal(String::from_str("\"data-quux-for-id\"")));
    assert(all_tokens_view(text) =~= seq![TokenView::Literal("\"data-quux-for-id\""@)]);
    let mut args: Vec<TokenTree> = Vec::new();
    push_token(&mut args, ident("String"));
    push_path_sep(&mut args);
    push_token(&mut args, ident("from"));
    push_token(&mut args, group(Delimiter::Parenthesis, text));
    push_token(&mut args, punct(','));
    push_token(&mut args, ident("id"));
    let ghost args_view = seq![id_token("String")] + path_sep() + seq![
        id_token("from"),
        TokenView::Group(Delimiter::Parenthesis, seq![TokenView::Literal("\"data-quux-for-id\""@)]),
        punct_token(','),
        id_token("id"),
    ];
    assert(all_tokens_view(args) =~= args_view);
    let mut then_branch: Vec<TokenTree> = Vec::new();
    push_token(&mut then_branch, ident("Some"));
    push_token(&mut then_branch, group(Delimiter::Parenthesis, args));
    assert(all_tokens_view(then_branch) =~= seq![
        id_token("Some"),
        TokenView::Group(Delimiter::Parenthesis, args_view),
    ]);
    let mut else_branch: Vec<TokenTree> = Vec::new();
    push_token(&mut else_branch, ident("None"));
    assert(all_tokens_view(else_branch) =~= seq![id_token("None")]);
    let mut v: Vec<TokenTree> = Vec::new();
    push_token(&mut v, punct('&'));
    push_token(&mut v, ident("if"));
    push_token(&mut v, ident("let"));
    push_token(&mut v, ident("Some"));
    push_token(&mut v, group(Delimiter::Parenthesis, binding));
    push_token(&mut v, punct('='));
    push_token(&mut v, ident("for_loop_id"));
    push_token(&mut v, group(Delimiter::Brace, then_branch));
    push_token(&mut v, ident("else"));
    push_token(&mut v, group(Delimiter::Brace, else_branch));
    assert(all_tokens_view(v) =~= for_loop_id_tokens());
    v
}

/// The tokens of the expression that builds a `HashMap` of the pairs, and, when
/// `include_for_loop_id` holds, of the entry that gives an element within a loop
/// its loop id.
pub fn hashmap_tokens(pairs: Vec<(Vec<TokenTree>, Vec<TokenTree>)>, include_for_loop_id: bool) -> (r:
    Expr)
    ensures
        r@ == spec_hashmap_tokens(pairs_view(pairs@), include_for_loop_id),
{
    let ghost pv = pairs_view(pairs@);
    let mut list: Vec<TokenTree> = Vec::new();
    let mut i: usize = 0;
    while i < pairs.len()
        invariant
            i <= pairs@.len(),
            pv == pairs_view(pairs@),
            all_tokens_view(list) == joined_pairs(pv.take(i as int)),
        decreases pairs@.len() - i,
    {
        let ghost before = all_tokens_view(list);
        let ghost p = pv[i as int];
        assert(p == (all_tokens_view(pairs@[i as int].0), all_tokens_view(pairs@[i as int].1)));
        if i > 0 {
            push_token(&mut list, punct(','));
        }
        let ghost separated = all_tokens_view(list);
        assert(separated == if i > 0 {
            before + seq![punct_token(',')]
        } else {
            before
        }) by {
            if i > 0 {
                assert(before.push(punct_token(',')) =~= before + seq![punct_token(',')]);
            }
        }
        let mut pair: Vec<TokenTree> = Vec::new();
        append_tokens(&mut pair, &pairs[i].0);
        push_token(&mut pair, punct(','));
        append_tokens(&mut pair, &pairs[i].1);
        assert(all_tokens_view(pair) =~= p.0 + seq![punct_token(',')] + p.1);
        let mut wrapped: Vec<TokenTree> = Vec::new();
        push_token(&mut wrapped, group(Delimiter::Parenthesis, pair));
        assert(all_tokens_view(wrapped) =~= seq![
            TokenView::Group(Delimiter::Parenthesis, p.0 + seq![punct_token(',')] + p.1),
        ]);
        push_token(&mut list, ident("Some"));
        push_token(&mut list, group(Delimiter::Parenthesis, wrapped));
        assert(all_tokens_view(list) =~= separated + pair_tokens(p.0, p.1));
        proof {
            let next = pv.take(i + 1);
            assert(next.drop_last() =~= pv.take(i as int));
            assert(next.last() == p);
            if i == 0 {
                assert(before =~= Seq::<TokenView>::empty());
                assert(next.len() == 1 && next[0] == p);
                assert(all_tokens_view(list) =~= joined_pairs(next));
            } else {
                assert(all_tokens_view(list) =~= joined_pairs(next));
            }
        }
        i = i + 1;
    }
    assert(pv.take(pairs@.len() as int) =~= pv);
    let ghost joined = all_tokens_view(list);
    let ghost entry_view = if include_for_loop_id {
        for_loop_id_tokens()
    } else {
        Seq::empty()
    };
    let mut items = list;
    push_token(&mut items, punct(','));
    if include_for_loop_id {
        let entry = for_loop_id_expr();
        append_tokens(&mut items, &entry);
    }
    let ghost items_view = joined + seq![punct_token(',')] + entry_view;
    assert(all_tokens_view(items) =~= items_view);
    let mut call: Vec<TokenTree> = Vec::new();
    push_token(&mut call, ident("vec"));
    push_token(&mut call, punct('!'));
    push_token(&mut call, group(Delimiter::Bracket, items));
    push_token(&mut call, punct('.'));
    push_token(&mut call, ident("into_iter"));
    push_token(&mut call, empty_parens());
    push_token(&mut call, punct('.'));
    push_token(&mut call, ident("flatten"));
    push_token(&mut call, empty_parens());
    let ghost call_view = seq![
        id_token("vec"),
        punct_token('!'),
        TokenView::Group(Delimiter::Bracket, items_view),
        punct_token('.'),
        id_token("into_iter"),
        TokenView::Group(Delimiter::Parenthesis, Seq::empty()),
        punct_token('.'),
        id_token("flatten"),
        TokenView::Group(Delimiter::Parenthesis, Seq::empty()),
    ];
    assert(all_tokens_view(call) =~= call_view);
    let mut tokens: Vec<TokenTree> = Vec::new();
    push_token(&mut tokens, ident("std"));
    push_path_sep(&mut tokens);
    push_token(&mut tokens, ident("collections"));
    push_path_sep(&mut tokens);
    push_token(&mut tokens, ident("HashMap"));
    push_path_sep(&mut tokens);
    push_token(&mut tokens, ident("from_iter"));
    push_token(&mut tokens, group(Delimiter::Parenthesis, call));
    let r = Expr { tokens };
    assert(r@ =~= spec_hashmap_tokens(pv, include_for_loop_id));
    r
}

/// The decimal digits of `n`.
pub open spec fn decimal(n: nat) -> Seq<char>
    decreases n,
{
    if n < 10 {
        seq![(n + 48) as char]
    } else {
        decimal(n / 10).push((n % 10 + 48) as char)
    }
}

/// Appends the decimal digits of `n` to `out`.
pub(crate) fn push_decimal(out: &mut String, n: u64)
    ensures
        final(out)@ == old(out)@ + decimal(n as nat),
    decreases n,
{
    if n >= 10 {
        push_decimal(out, n / 10);
    }
    let d = (n % 10) as u8;
    let c = (d + 48) as char;
    let ghost before = out@;
    crate::text::push_char(out, c);
    proof {
        if n < 10 {
            assert(decimal(n as nat) =~= seq![(n + 48) as char]);
        } else {
            assert(decimal(n as nat) == decimal((n / 10) as nat).push((n % 10 + 48) as char));
        }
    }
    assert(out@ =~= old(out)@ + decimal(n as nat));
}

/// The source text of the literal `n` with the suffix `u64`, such as `7u64`.
pub(crate) fn u64_literal(n: u64) -> (r: String)
    ensures
        r@ == decimal(n as nat) + "u64"@,
{
    let mut out = String::new();
    push_decimal(&mut out, n);
    crate::text::push_str(&mut out, "u64");
    out
}

/// The key of the attribute that lets the client find a reactive element.
pub open spec fn scoped_id_key() -> Seq<char> {
    "data-quux-id"@
}

/// The tokens of `format!("{}.{}", &id, <id>)`: the id of the view the element is
/// rendered in, a dot, and the id of the element.
pub open spec fn scoped_id_tokens(id: u64) -> Seq<TokenView> {
    seq![
        id_token("format"),
        punct_token('!'),
        TokenView::Group(
            Delimiter::Parenthesis,
            seq![
                TokenView::Literal("\"{}.{}\""@),
                punct_token(','),
                punct_token('&'),
                id_token("id"),
                punct_token(','),
                TokenView::Literal(decimal(id as nat) + "u64"@),
            ],
        ),
    ]
}

impl Attributes {
    /// Adds the attribute `data-quux-id` that lets the client find the element, when
    /// the element is reactive; does nothing otherwise.
    pub fn insert_scoped_id(&mut self)
        requires
            old(self).wf(),
        ensures
            final(self).wf(),
            old(self)@.element_needs_id ==> final(self)@ == (AttributesView {
                attributes: old(self)@.attributes.insert(scoped_id_key(), scoped_id_tokens(old(self)@.id)),
                ..old(self)@
            }),
            !old(self)@.element_needs_id ==> final(self)@ == old(self)@,
            entries_view(final(self).attributes@) == scoped_entries(*old(self)),
            final(self).is_root == old(self).is_root,
            final(self).id == old(self).id,
    {
        if !self.element_needs_id {
            return;
        }
        let mut args: Vec<TokenTree> = Vec::new();
        push_token(&mut args, TokenTree::Literal(String::from_str("\"{}.{}\"")));
        push_token(&mut args, punct(','));
        push_token(&mut args, punct('&'));
        push_token(&mut args, ident("id"));
        push_token(&mut args, punct(','));
        push_token(&mut args, TokenTree::Literal(u64_literal(self.id)));
        let ghost args_view = seq![
            TokenView::Literal("\"{}.{}\""@),
            punct_token(','),
            punct_token('&'),
            id_token("id"),
            punct_token(','),
            TokenView::Literal(decimal(self.id as nat) + "u64"@),
        ];
        assert(all_tokens_view(args) =~= args_view);
        let mut tokens: Vec<TokenTree> = Vec::new();
        push_token(&mut tokens, ident("format"));
        push_token(&mut tokens, punct('!'));
        push_token(&mut tokens, group(Delimiter::Parenthesis, args));
        let value = Expr { tokens };
        assert(value@ =~= scoped_id_tokens(self.id));
        let ghost before = entries_map(self.attributes@);
        let ghost entries = self.attributes@;
        let key = String::from_str("data-quux-id");
        let ghost k = key;
        insert_entry(&mut self.attributes, key, value);
        proof {
            lemma_exprs_view_insert(before, scoped_id_key(), value);
            lemma_entries_view_insert(entries, k, value);
        }
    }
}

/// A list of entry values with `value` under `key`: in place of the entry with that
/// key, or as a new last entry.
pub open spec fn view_insert(
    s: Seq<(Seq<char>, Seq<TokenView>)>,
    key: Seq<char>,
    value: Seq<TokenView>,
) -> Seq<(Seq<char>, Seq<TokenView>)> {
    if exists|i: int| 0 <= i < s.len() && #[trigger] s[i].0 == key {
        s.update(choose|i: int| 0 <= i < s.len() && #[trigger] s[i].0 == key, (key, value))
    } else {
        s.push((key, value))
    }
}

/// The entry values of the attributes of an element once the attribute that lets
/// the client find it is added, when it is reactive.
pub open spec fn scoped_entries(a: Attributes) -> Seq<(Seq<char>, Seq<TokenView>)> {
    if a.element_needs_id {
        view_insert(entries_view(a.attributes@), scoped_id_key(), scoped_id_tokens(a.id))
    } else {
        entries_view(a.attributes@)
    }
}

/// Inserting an entry changes the entry values as `view_insert` says.
proof fn lemma_entries_view_insert(s: Seq<(String, Expr)>, key: String, value: Expr)
    requires
        keys_distinct(s),
    ensures
        entries_view(
            match key_index(s, key@) {
                Some(i) => s.update(i, (key, value)),
                None => s.push((key, value)),
            },
        ) == view_insert(entries_view(s), key@, value@),
{
    let sv = entries_view(s);
    assert forall|i: int| 0 <= i < s.len() implies #[trigger] sv[i].0 == s[i].0@ by {}
    if exists|i: int| 0 <= i < s.len() && #[trigger] s[i].0@ == key@ {
        let i = choose|i: int| 0 <= i < s.len() && #[trigger] s[i].0@ == key@;
        assert(sv[i].0 == key@);
        let j = choose|j: int| 0 <= j < sv.len() && #[trigger] sv[j].0 == key@;
        assert(s[j].0@ == key@);
        if i < j {
            assert(s[i].0@ != s[j].0@);
        } else if j < i {
            assert(s[j].0@ != s[i].0@);
        }
        assert(entries_view(s.update(i, (key, value))) =~= sv.update(i, (key@, value@)));
    } else {
        assert forall|j: int| 0 <= j < sv.len() implies #[trigger] sv[j].0 != key@ by {
            assert(sv[j].0 == s[j].0@);
        }
        assert(entries_view(s.push((key, value))) =~= sv.push((key@, value@)));
    }
}

/// The tokens of `String::from(<inner>)`.
pub open spec fn string_from(inner: Seq<TokenView>) -> Seq<TokenView> {
    seq![id_token("String")] + path_sep() + seq![
        id_token("from"),
        TokenView::Group(Delimiter::Parenthesis, inner),
    ]
}

/// The tokens of `String::from("<key>")`, the key as a string literal.
pub open spec fn key_tokens(key: Seq<char>) -> Seq<TokenView> {
    string_from(seq![TokenView::Literal(string_literal_text(key))])
}

/// The pairs of the static map: each key, and its value made a `String`.
pub open spec fn static_pairs(s: Seq<(Seq<char>, Seq<TokenView>)>) -> Seq<
    (Seq<TokenView>, Seq<TokenView>),
> {
    s.map_values(|e: (Seq<char>, Seq<TokenView>)| (key_tokens(e.0), string_from(e.1)))
}

/// The pairs of the reactive map: each key, and its value as it is.
pub open spec fn reactive_pairs(s: Seq<(Seq<char>, Seq<TokenView>)>) -> Seq<
    (Seq<TokenView>, Seq<TokenView>),
> {
    s.map_values(|e: (Seq<char>, Seq<TokenView>)| (key_tokens(e.0), e.1))
}

/// The tokens of `String::from(<inner>)`.
fn string_from_tokens(inner: Vec<TokenTree>) -> (v: Vec<TokenTree>)
    ensures
        all_tokens_view(v) == string_from(all_tokens_view(inner)),
{
    let ghost i = all_tokens_view(inner);
    let mut v: Vec<TokenTree> = Vec::new();
    push_token(&mut v, ident("String"));
    push_path_sep(&mut v);
    push_token(&mut v, ident("from"));
    push_token(&mut v, group(Delimiter::Parenthesis, inner));
    assert(all_tokens_view(v) =~= string_from(i));
    v
}

/// The tokens of `String::from("<key>")`.
fn key_string(key: &str) -> (v: Vec<TokenTree>)
    ensures
        all_tokens_view(v) == key_tokens(key@),
{
    let mut literal: Vec<TokenTree> = Vec::new();
    push_token(&mut literal, TokenTree::Literal(string_literal(key)));
    assert(all_tokens_view(literal) =~= seq![TokenView::Literal(string_literal_text(key@))]);
    string_from_tokens(literal)
}

/// The tokens of `quux::tree::Attributes::new(<static>, <reactive>)`.
pub open spec fn attributes_new(stat: Seq<TokenView>, reactive: Seq<TokenView>) -> Seq<TokenView> {
    seq![id_token("quux")] + path_sep() + seq![id_token("tree")] + path_sep() + seq![
        id_token("Attributes"),
    ] + path_sep() + seq![
        id_token("new"),
        TokenView::Group(Delimiter::Parenthesis, stat + seq![punct_token(',')] + reactive),
    ]
}

impl Attributes {
    /// The tokens of the map of the attributes, each value made a `String`, with the
    /// loop id entry when the element is the root of its view.
    pub fn static_attributes(&self) -> (r: Expr)
        ensures
            r@ == spec_hashmap_tokens(static_pairs(entries_view(self.attributes@)), self.is_root),
    {
        let ghost target = static_pairs(entries_view(self.attributes@));
        let mut pairs: Vec<(Vec<TokenTree>, Vec<TokenTree>)> = Vec::new();
        let mut i: usize = 0;
        while i < self.attributes.len()
            invariant
                i <= self.attributes@.len(),
                target == static_pairs(entries_view(self.attributes@)),
                pairs_view(pairs@) == target.take(i as int),
            decreases self.attributes@.len() - i,
        {
            let key = key_string(self.attributes[i].0.as_str());
            let value = string_from_tokens(clone_tokens(&self.attributes[i].1.tokens));
            let ghost before = pairs@;
            pairs.push((key, value));
            assert(pairs_view(pairs@) =~= pairs_view(before).push(
                (all_tokens_view(key), all_tokens_view(value)),
            ));
            assert(target.take(i + 1) =~= target.take(i as int).push(target[i as int]));
            i = i + 1;
        }
        assert(target.take(self.attributes@.len() as int) =~= target);
        hashmap_tokens(pairs, self.is_root)
    }

    /// The tokens of the map of the attributes with their values as they are.
    pub fn reactive_attributes(&self) -> (r: Expr)
        ensures
            r@ == spec_hashmap_tokens(reactive_pairs(entries_view(self.attributes@)), false),
    {
        let ghost target = reactive_pairs(entries_view(self.attributes@));
        let mut pairs: Vec<(Vec<TokenTree>, Vec<TokenTree>)> = Vec::new();
        let mut i: usize = 0;
        while i < self.attributes.len()
            invariant
                i <= self.attributes@.len(),
                target == reactive_pairs(entries_view(self.attributes@)),
                pairs_view(pairs@) == target.take(i as int),
            decreases self.attributes@.len() - i,
        {
            let key = key_string(self.attributes[i].0.as_str());
            let value = clone_tokens(&self.attributes[i].1.tokens);
            let ghost before = pairs@;
            pairs.push((key, value));
            assert(pairs_view(pairs@) =~= pairs_view(before).push(
                (all_tokens_view(key), all_tokens_view(value)),
            ));
            assert(target.take(i + 1) =~= target.take(i as int).push(target[i as int]));
            i = i + 1;
        }
        assert(target.take(self.attributes@.len() as int) =~= target);
        hashmap_tokens(pairs, false)
    }

    /// The tokens that build the attributes of the element when it is rendered:
    /// `quux::tree::Attributes::new(<static>, <reactive>)`, once the attribute that
    /// lets the client find a reactive element is added.
    pub fn to_tokens(&self) -> (r: Expr)
        requires
            self.wf(),
        ensures
            r@ == attributes_new(
                spec_hashmap_tokens(static_pairs(scoped_entries(*self)), self.is_root),
                spec_hashmap_tokens(reactive_pairs(scoped_entries(*self)), false),
            ),
    {
        let mut attributes = self.copy();
        proof {
            assert(scoped_entries(attributes) == scoped_entries(*self));
        }
        attributes.insert_scoped_id();
        let stat = attributes.static_attributes();
        let reactive = attributes.reactive_attributes();
        let ghost sv = stat@;
        let ghost rv = reactive@;
        let mut args = stat.tokens;
        push_token(&mut args, punct(','));
        append_tokens(&mut args, &reactive.tokens);
        assert(all_tokens_view(args) =~= sv + seq![punct_token(',')] + rv);
        let mut tokens: Vec<TokenTree> = Vec::new();
        push_token(&mut tokens, ident("quux"));
        push_path_sep(&mut tokens);
        push_token(&mut tokens, ident("tree"));
        push_path_sep(&mut tokens);
        push_token(&mut tokens, ident("Attributes"));
        push_path_sep(&mut tokens);
        push_token(&mut tokens, ident("new"));
        push_token(&mut tokens, group(Delimiter::Parenthesis, args));
        let r = Expr { tokens };
        assert(r@ =~= attributes_new(sv, rv));
        r
    }
}

} // verus!
