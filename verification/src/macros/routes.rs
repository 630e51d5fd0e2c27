//! The `routes!` macro: a list of route types becomes an enum with one variant per
//! route, a conversion from each type, and the hydration of whichever route the
//! page shows.

use vstd::prelude::*;
use crate::html::parse::{range_expr, range_view};
use crate::macros::{arrow_tv, id_tv, p_tv, push_arrow, push_id, push_p};
use crate::tokens::{
    all_tokens_view, append_tokens, group, is_punct_at, path_sep, peek_punct, push_path_sep,
    push_token, Delimiter, Expr, TokenTree, TokenView,
};
use crate::view::generate::client::{fat_arrow, push_fat_arrow};
use crate::view::generate::server::{decimal, push_decimal};
use crate::view::parse::grammar::{type_end, type_end_from, SyntaxError};
use crate::html::client::unit_tv;

verus! {

/// A type found ends after it starts and no later than where the search began.
pub proof fn lemma_type_end_bounds(v: Vec<TokenTree>, a: int, p: int)
    ensures
        type_end_from(v, a, p) matches Some(e) ==> a < e <= p,
    decreases p - a,
{
    if p > a {
        lemma_type_end_bounds(v, a, p - 1);
    }
}

/// The types of a list read from token `p` on: types separated by commas, a last
/// comma allowed; each type the longest run of tokens that reads as one.
pub open spec fn spec_type_list(v: Vec<TokenTree>, p: int) -> Option<Seq<Seq<TokenView>>>
    decreases v@.len() - p,
{
    if p < 0 || p >= v@.len() {
        Some(Seq::empty())
    } else {
        match type_end_from(v, p, v@.len() as int) {
            None => None,
            Some(e) => {
                proof {
                    lemma_type_end_bounds(v, p, v@.len() as int);
                }
                if e >= v@.len() {
                    Some(seq![range_view(v, p, e)])
                } else if is_punct_at(v@, e, ',') {
                    match spec_type_list(v, e + 1) {
                        Some(rest) => Some(seq![range_view(v, p, e)] + rest),
                        None => None,
                    }
                } else {
                    None
                }
            },
        }
    }
}

/// The values of a list of expressions.
pub open spec fn types_view(s: Seq<Expr>) -> Seq<Seq<TokenView>> {
    s.map_values(|e: Expr| e@)
}

/// Reads the route types of `tokens`, as `spec_type_list` says from the start.
pub fn parse_types(tokens: &Vec<TokenTree>) -> (r: Result<Vec<Expr>, SyntaxError>)
    ensures
        match r {
            Ok(list) => spec_type_list(*tokens, 0) == Some(types_view(list@)),
            Err(_) => spec_type_list(*tokens, 0) is None,
        },
{
    parse_types_from(tokens, 0)
}

/// Reads a list of types from token `start` on, as `spec_type_list` says.
pub fn parse_types_from(tokens: &Vec<TokenTree>, start: usize) -> (r: Result<Vec<Expr>, SyntaxError>)
    requires
        start <= tokens@.len(),
    ensures
        match r {
            Ok(list) => spec_type_list(*tokens, start as int) == Some(types_view(list@)),
            Err(_) => spec_type_list(*tokens, start as int) is None,
        },
{
    let n = tokens.len();
    let mut list: Vec<Expr> = Vec::new();
    let mut p: usize = start;
    assert(types_view(list@) =~= Seq::<Seq<TokenView>>::empty());
    proof {
        if let Some(rest) = spec_type_list(*tokens, start as int) {
            assert(Seq::<Seq<TokenView>>::empty() + rest =~= rest);
        }
    }
    while p < n
        invariant
            n == tokens@.len(),
            start <= p <= n,
            spec_type_list(*tokens, start as int) == match spec_type_list(*tokens, p as int) {
                Some(rest) => Some(types_view(list@) + rest),
                None => None,
            },
        decreases n - p,
    {
        proof {
            lemma_type_end_bounds(*tokens, p as int, n as int);
        }
        match type_end(tokens, p) {
            None => {
                return Err(SyntaxError);
            },
            Some(e) => {
                let ty = range_expr(tokens, p, e);
                let ghost before = list@;
                list.push(ty);
                assert(types_view(list@) =~= types_view(before) + seq![range_view(*tokens, p as int, e as int)]);
                if e == n {
                    assert(spec_type_list(*tokens, e as int) == Some(Seq::<Seq<TokenView>>::empty()));
                    assert(types_view(list@) + Seq::<Seq<TokenView>>::empty() =~= types_view(list@));
                    p = e;
                } else if peek_punct(tokens, e, ',') {
                    proof {
                        if let Some(rest) = spec_type_list(*tokens, e + 1) {
                            assert(types_view(before) + (seq![range_view(*tokens, p as int, e as int)]
                                + rest) =~= types_view(list@) + rest);
                        }
                    }
                    p = e + 1;
                } else {
                    return Err(SyntaxError);
                }
            },
        }
    }
    assert(spec_type_list(*tokens, p as int) == Some(Seq::<Seq<TokenView>>::empty()));
    assert(types_view(list@) + Seq::<Seq<TokenView>>::empty() =~= types_view(list@));
    Ok(list)
}

/// The name of the variant of route `j`: `Route<j>`.
pub open spec fn route_name(j: nat) -> TokenView {
    id_tv("Route"@ + decimal(j))
}

/// The variant of route `j` of type `ty`: `Route<j>(<ty>)`.
pub open spec fn variant_tokens(j: nat, ty: Seq<TokenView>) -> Seq<TokenView> {
    seq![route_name(j), TokenView::Group(Delimiter::Parenthesis, ty)]
}

/// The variants of the routes, with `,` between two of them.
pub open spec fn variants_tokens(types: Seq<Seq<TokenView>>) -> Seq<TokenView>
    decreases types.len(),
{
    if types.len() == 0 {
        Seq::empty()
    } else if types.len() == 1 {
        variant_tokens(0, types[0])
    } else {
        variants_tokens(types.drop_last()) + seq![p_tv(',')] + variant_tokens(
            (types.len() - 1) as nat,
            types.last(),
        )
    }
}

/// `impl From<<ty>> for Routes { fn from(value: <ty>) -> Self { Self::Route<j>(value) } }`
pub open spec fn from_impl_tokens(j: nat, ty: Seq<TokenView>) -> Seq<TokenView> {
    let body = seq![id_tv("Self"@)] + path_sep() + seq![
        route_name(j),
        TokenView::Group(Delimiter::Parenthesis, seq![id_tv("value"@)]),
    ];
    let function = seq![
        id_tv("fn"@),
        id_tv("from"@),
        TokenView::Group(Delimiter::Parenthesis, seq![id_tv("value"@), p_tv(':')] + ty),
    ] + arrow_tv() + seq![id_tv("Self"@), TokenView::Group(Delimiter::Brace, body)];
    seq![id_tv("impl"@), id_tv("From"@), p_tv('<')] + ty + seq![
        p_tv('>'),
        id_tv("for"@),
        id_tv("Routes"@),
        TokenView::Group(Delimiter::Brace, function),
    ]
}

/// One conversion for each route, one after the other.
pub open spec fn from_impls_tokens(types: Seq<Seq<TokenView>>) -> Seq<TokenView>
    decreases types.len(),
{
    if types.len() == 0 {
        Seq::empty()
    } else {
        from_impls_tokens(types.drop_last()) + from_impl_tokens((types.len() - 1) as nat, types.last())
    }
}

/// The statements that hydrate a route's component:
/// `let mut tree = quux::component::Component::render(component,
/// quux::context::Context::new()); quux::tree::Item::insert_id(&mut tree, 0);
/// quux::tree::Item::hydrate(&mut tree);`
pub open spec fn hydrate_body() -> Seq<TokenView> {
    seq![id_tv("let"@), id_tv("mut"@), id_tv("tree"@), p_tv('='), id_tv("quux"@)] + path_sep() + seq![
        id_tv("component"@),
    ] + path_sep() + seq![id_tv("Component"@)] + path_sep() + seq![
        id_tv("render"@),
        TokenView::Group(
            Delimiter::Parenthesis,
            seq![id_tv("component"@), p_tv(','), id_tv("quux"@)] + path_sep() + seq![
                id_tv("context"@),
            ] + path_sep() + seq![id_tv("Context"@)] + path_sep() + seq![id_tv("new"@), unit_tv()],
        ),
        p_tv(';'),
        id_tv("quux"@),
    ] + path_sep() + seq![id_tv("tree"@)] + path_sep() + seq![id_tv("Item"@)] + path_sep() + seq![
        id_tv("insert_id"@),
        TokenView::Group(
            Delimiter::Parenthesis,
            seq![p_tv('&'), id_tv("mut"@), id_tv("tree"@), p_tv(','), TokenView::Literal("0"@)],
        ),
        p_tv(';'),
        id_tv("quux"@),
    ] + path_sep() + seq![id_tv("tree"@)] + path_sep() + seq![id_tv("Item"@)] + path_sep() + seq![
        id_tv("hydrate"@),
        TokenView::Group(Delimiter::Parenthesis, seq![p_tv('&'), id_tv("mut"@), id_tv("tree"@)]),
        p_tv(';'),
    ]
}

/// The arm for route `j`: `Self::Route<j>(component) => { <hydrate body> }`.
pub open spec fn arm_tokens(j: nat) -> Seq<TokenView> {
    seq![id_tv("Self"@)] + path_sep() + seq![
        route_name(j),
        TokenView::Group(Delimiter::Parenthesis, seq![id_tv("component"@)]),
    ] + fat_arrow() + seq![TokenView::Group(Delimiter::Brace, hydrate_body())]
}

/// The arms for routes `0` to `n - 1`, with `,` between two of them.
pub open spec fn arms_tokens(n: nat) -> Seq<TokenView>
    decreases n,
{
    if n == 0 {
        Seq::empty()
    } else if n == 1 {
        arm_tokens(0)
    } else {
        arms_tokens((n - 1) as nat) + seq![p_tv(',')] + arm_tokens((n - 1) as nat)
    }
}

/// The code of the routes `types`:
/// `#[derive(quux::prelude::Serialize, quux::prelude::Deserialize, Clone)]
/// pub enum Routes { <variants> }`, the conversions, and
/// `impl quux::component::Routes for Routes { #[quux::prelude::client]
/// fn hydrate(self) { match self { <arms> }; } }`.
pub open spec fn routes_tokens(types: Seq<Seq<TokenView>>) -> Seq<TokenView> {
    let derive = seq![id_tv("derive"@), TokenView::Group(
        Delimiter::Parenthesis,
        seq![id_tv("quux"@)] + path_sep() + seq![id_tv("prelude"@)] + path_sep() + seq![
            id_tv("Serialize"@),
            p_tv(','),
            id_tv("quux"@),
        ] + path_sep() + seq![id_tv("prelude"@)] + path_sep() + seq![
            id_tv("Deserialize"@),
            p_tv(','),
            id_tv("Clone"@),
        ],
    )];
    let client = seq![id_tv("quux"@)] + path_sep() + seq![id_tv("prelude"@)] + path_sep() + seq![
        id_tv("client"@),
    ];
    let hydrate = seq![
        p_tv('#'),
        TokenView::Group(Delimiter::Bracket, client),
        id_tv("fn"@),
        id_tv("hydrate"@),
        TokenView::Group(Delimiter::Parenthesis, seq![id_tv("self"@)]),
        TokenView::Group(
            Delimiter::Brace,
            seq![
                id_tv("match"@),
                id_tv("self"@),
                TokenView::Group(Delimiter::Brace, arms_tokens(types.len())),
                p_tv(';'),
            ],
        ),
    ];
    seq![
        p_tv('#'),
        TokenView::Group(Delimiter::Bracket, derive),
        id_tv("pub"@),
        id_tv("enum"@),
        id_tv("Routes"@),
        TokenView::Group(Delimiter::Brace, variants_tokens(types)),
    ] + from_impls_tokens(types) + seq![id_tv("impl"@), id_tv("quux"@)] + path_sep() + seq![
        id_tv("component"@),
    ] + path_sep() + seq![
        id_tv("Routes"@),
        id_tv("for"@),
        id_tv("Routes"@),
        TokenView::Group(Delimiter::Brace, hydrate),
    ]
}

/// The token of `route_name(j)`.
fn route_name_token(j: usize) -> (t: TokenTree)
    ensures
        crate::tokens::token_view(t) == route_name(j as nat),
{
    let mut name = String::from_str("Route");
    push_decimal(&mut name, j as u64);
    TokenTree::Ident(name)
}

/// The tokens of `from_impl_tokens(j, ty)`.
fn push_from_impl(v: &mut Vec<TokenTree>, j: usize, ty: &Expr)
    ensures
        all_tokens_view(*final(v)) == all_tokens_view(*old(v)) + from_impl_tokens(j as nat, ty@),
{
    let ghost start = all_tokens_view(*v);
    let mut value: Vec<TokenTree> = Vec::new();
    push_id(&mut value, "value");
    assert(all_tokens_view(value) =~= seq![id_tv("value"@)]);
    let mut body: Vec<TokenTree> = Vec::new();
    push_id(&mut body, "Self");
    push_path_sep(&mut body);
    push_token(&mut body, route_name_token(j));
    push_token(&mut body, group(Delimiter::Parenthesis, value));
    let ghost body_v = all_tokens_view(body);
    let mut param: Vec<TokenTree> = Vec::new();
    push_id(&mut param, "value");
    push_p(&mut param, ':');
    append_tokens(&mut param, &ty.tokens);
    let ghost param_v = all_tokens_view(param);
    let mut function: Vec<TokenTree> = Vec::new();
    push_id(&mut function, "fn");
    push_id(&mut function, "from");
    push_token(&mut function, group(Delimiter::Parenthesis, param));
    push_arrow(&mut function);
    push_id(&mut function, "Self");
    push_token(&mut function, group(Delimiter::Brace, body));
    let ghost function_v = all_tokens_view(function);
    push_id(v, "impl");
    push_id(v, "From");
    push_p(v, '<');
    append_tokens(v, &ty.tokens);
    push_p(v, '>');
    push_id(v, "for");
    push_id(v, "Routes");
    push_token(v, group(Delimiter::Brace, function));
    proof {
        let body_s = seq![id_tv("Self"@)] + path_sep() + seq![
            route_name(j as nat),
            TokenView::Group(Delimiter::Parenthesis, seq![id_tv("value"@)]),
        ];
        assert(body_v =~= body_s);
        assert(param_v =~= seq![id_tv("value"@), p_tv(':')] + ty@);
        assert(function_v =~= seq![
            id_tv("fn"@),
            id_tv("from"@),
            TokenView::Group(Delimiter::Parenthesis, seq![id_tv("value"@), p_tv(':')] + ty@),
        ] + arrow_tv() + seq![id_tv("Self"@), TokenView::Group(Delimiter::Brace, body_s)]);
        assert(all_tokens_view(*v) =~= start + from_impl_tokens(j as nat, ty@));
    }
}

/// The tokens of `quux::<a>::<b>::<c>`, after `v`.
fn push_path3(v: &mut Vec<TokenTree>, a: &str, b: &str, c: &str)
    ensures
        all_tokens_view(*final(v)) == all_tokens_view(*old(v)) + seq![id_tv("quux"@)] + path_sep()
            + seq![id_tv(a@)] + path_sep() + seq![id_tv(b@)] + path_sep() + seq![id_tv(c@)],
{
    let ghost start = all_tokens_view(*v);
    push_id(v, "quux");
    push_path_sep(v);
    push_id(v, a);
    push_path_sep(v);
    push_id(v, b);
    push_path_sep(v);
    push_id(v, c);
    assert(all_tokens_view(*v) =~= start + seq![id_tv("quux"@)] + path_sep() + seq![id_tv(a@)]
        + path_sep() + seq![id_tv(b@)] + path_sep() + seq![id_tv(c@)]);
}

/// The tokens of `hydrate_body()`.
#[verifier::rlimit(40)]
fn hydrate_body_code() -> (v: Vec<TokenTree>)
    ensures
        all_tokens_view(v) == hydrate_body(),
{
    let mut render_args: Vec<TokenTree> = Vec::new();
    push_id(&mut render_args, "component");
    push_p(&mut render_args, ',');
    push_path3(&mut render_args, "context", "Context", "new");
    push_token(&mut render_args, crate::html::client::unit_token());
    let ghost render_v = all_tokens_view(render_args);
    let mut insert_args: Vec<TokenTree> = Vec::new();
    push_p(&mut insert_args, '&');
    push_id(&mut insert_args, "mut");
    push_id(&mut insert_args, "tree");
    push_p(&mut insert_args, ',');
    push_token(&mut insert_args, TokenTree::Literal(String::from_str("0")));
    let ghost insert_v = all_tokens_view(insert_args);
    let mut hydrate_args: Vec<TokenTree> = Vec::new();
    push_p(&mut hydrate_args, '&');
    push_id(&mut hydrate_args, "mut");
    push_id(&mut hydrate_args, "tree");
    let ghost hydrate_v = all_tokens_view(hydrate_args);
    let mut v: Vec<TokenTree> = Vec::new();
    push_id(&mut v, "let");
    push_id(&mut v, "mut");
    push_id(&mut v, "tree");
    push_p(&mut v, '=');
    push_path3(&mut v, "component", "Component", "render");
    push_token(&mut v, group(Delimiter::Parenthesis, render_args));
    push_p(&mut v, ';');
    push_path3(&mut v, "tree", "Item", "insert_id");
    push_token(&mut v, group(Delimiter::Parenthesis, insert_args));
    push_p(&mut v, ';');
    push_path3(&mut v, "tree", "Item", "hydrate");
    push_token(&mut v, group(Delimiter::Parenthesis, hydrate_args));
    push_p(&mut v, ';');
    proof {
        assert(render_v =~= seq![id_tv("component"@), p_tv(','), id_tv("quux"@)] + path_sep() + seq![
            id_tv("context"@),
        ] + path_sep() + seq![id_tv("Context"@)] + path_sep() + seq![id_tv("new"@), unit_tv()]);
        assert(insert_v =~= seq![p_tv('&'), id_tv("mut"@), id_tv("tree"@), p_tv(','), TokenView::Literal("0"@)]);
        assert(hydrate_v =~= seq![p_tv('&'), id_tv("mut"@), id_tv("tree"@)]);
        assert(all_tokens_view(v) =~= hydrate_body());
    }
    v
}

/// The tokens of `arm_tokens(j)`.
fn push_arm(v: &mut Vec<TokenTree>, j: usize)
    ensures
        all_tokens_view(*final(v)) == all_tokens_view(*old(v)) + arm_tokens(j as nat),
{
    let ghost start = all_tokens_view(*v);
    let mut component: Vec<TokenTree> = Vec::new();
    push_id(&mut component, "component");
    assert(all_tokens_view(component) =~= seq![id_tv("component"@)]);
    push_id(v, "Self");
    push_path_sep(v);
    push_token(v, route_name_token(j));
    push_token(v, group(Delimiter::Parenthesis, component));
    push_fat_arrow(v);
    push_token(v, group(Delimiter::Brace, hydrate_body_code()));
    assert(all_tokens_view(*v) =~= start + arm_tokens(j as nat));
}

/// The code of the routes `types`, as `routes_tokens` says.
#[verifier::rlimit(40)]
pub fn routes_code(types: &Vec<Expr>) -> (r: Vec<TokenTree>)
    ensures
        all_tokens_view(r) == routes_tokens(types_view(types@)),
{
    let ghost all = types_view(types@);
    let n = types.len();
    let mut variants: Vec<TokenTree> = Vec::new();
    let mut impls: Vec<TokenTree> = Vec::new();
    let mut arms: Vec<TokenTree> = Vec::new();
    let mut j: usize = 0;
    while j < n
        invariant
            n == types@.len(),
            all == types_view(types@),
            j <= n,
            all_tokens_view(variants) == variants_tokens(all.take(j as int)),
            all_tokens_view(impls) == from_impls_tokens(all.take(j as int)),
            all_tokens_view(arms) == arms_tokens(j as nat),
        decreases n - j,
    {
        let ghost taken = all.take(j + 1);
        assert(taken.drop_last() =~= all.take(j as int));
        assert(taken.last() == types@[j as int]@);
        if j > 0 {
            push_p(&mut variants, ',');
            push_p(&mut arms, ',');
        }
        let mut ty: Vec<TokenTree> = Vec::new();
        append_tokens(&mut ty, &types[j].tokens);
        assert(all_tokens_view(ty) =~= types@[j as int]@);
        push_token(&mut variants, route_name_token(j));
        push_token(&mut variants, group(Delimiter::Parenthesis, ty));
        push_from_impl(&mut impls, j, &types[j]);
        push_arm(&mut arms, j);
        if j == 0 {
            assert(all_tokens_view(variants) =~= variants_tokens(taken));
            assert(all_tokens_view(arms) =~= arms_tokens(1));
        } else {
            assert(all_tokens_view(variants) =~= variants_tokens(taken));
            assert(all_tokens_view(arms) =~= arms_tokens((j + 1) as nat));
        }
        assert(all_tokens_view(impls) =~= from_impls_tokens(taken));
        j = j + 1;
    }
    assert(all.take(n as int) =~= all);
    let ghost variants_v = all_tokens_view(variants);
    let ghost arms_v = all_tokens_view(arms);
    let mut derive_args: Vec<TokenTree> = Vec::new();
    push_id(&mut derive_args, "quux");
    push_path_sep(&mut derive_args);
    push_id(&mut derive_args, "prelude");
    push_path_sep(&mut derive_args);
    push_id(&mut derive_args, "Serialize");
    push_p(&mut derive_args, ',');
    push_id(&mut derive_args, "quux");
    push_path_sep(&mut derive_args);
    push_id(&mut derive_args, "prelude");
    push_path_sep(&mut derive_args);
    push_id(&mut derive_args, "Deserialize");
    push_p(&mut derive_args, ',');
    push_id(&mut derive_args, "Clone");
    let ghost derive_args_v = all_tokens_view(derive_args);
    let mut derive: Vec<TokenTree> = Vec::new();
    push_id(&mut derive, "derive");
    push_token(&mut derive, group(Delimiter::Parenthesis, derive_args));
    let ghost derive_v = all_tokens_view(derive);
    let mut client: Vec<TokenTree> = Vec::new();
    push_id(&mut client, "quux");
    push_path_sep(&mut client);
    push_id(&mut client, "prelude");
    push_path_sep(&mut client);
    push_id(&mut client, "client");
    let ghost client_v = all_tokens_view(client);
    let mut this: Vec<TokenTree> = Vec::new();
    push_id(&mut this, "self");
    assert(all_tokens_view(this) =~= seq![id_tv("self"@)]);
    let mut matching: Vec<TokenTree> = Vec::new();
    push_id(&mut matching, "match");
    push_id(&mut matching, "self");
    push_token(&mut matching, group(Delimiter::Brace, arms));
    push_p(&mut matching, ';');
    let ghost matching_v = all_tokens_view(matching);
    let mut hydrate: Vec<TokenTree> = Vec::new();
    push_p(&mut hydrate, '#');
    push_token(&mut hydrate, group(Delimiter::Bracket, client));
    push_id(&mut hydrate, "fn");
    push_id(&mut hydrate, "hydrate");
    push_token(&mut hydrate, group(Delimiter::Parenthesis, this));
    push_token(&mut hydrate, group(Delimiter::Brace, matching));
    let ghost hydrate_v = all_tokens_view(hydrate);
    let mut v: Vec<TokenTree> = Vec::new();
    push_p(&mut v, '#');
    push_token(&mut v, group(Delimiter::Bracket, derive));
    push_id(&mut v, "pub");
    push_id(&mut v, "enum");
    push_id(&mut v, "Routes");
    push_token(&mut v, group(Delimiter::Brace, variants));
    let ghost head = all_tokens_view(v);
    append_tokens(&mut v, &impls);
    let ghost with_impls = all_tokens_view(v);
    push_id(&mut v, "impl");
    push_id(&mut v, "quux");
    push_path_sep(&mut v);
    push_id(&mut v, "component");
    push_path_sep(&mut v);
    push_id(&mut v, "Routes");
    push_id(&mut v, "for");
    push_id(&mut v, "Routes");
    push_token(&mut v, group(Delimiter::Brace, hydrate));
    proof {
        let derive_s = seq![id_tv("derive"@), TokenView::Group(
            Delimiter::Parenthesis,
            seq![id_tv("quux"@)] + path_sep() + seq![id_tv("prelude"@)] + path_sep() + seq![
                id_tv("Serialize"@),
                p_tv(','),
                id_tv("quux"@),
            ] + path_sep() + seq![id_tv("prelude"@)] + path_sep() + seq![
                id_tv("Deserialize"@),
                p_tv(','),
                id_tv("Clone"@),
            ],
        )];
        assert(derive_args_v =~= seq![id_tv("quux"@)] + path_sep() + seq![id_tv("prelude"@)] + path_sep()
            + seq![id_tv("Serialize"@), p_tv(','), id_tv("quux"@)] + path_sep() + seq![id_tv("prelude"@)]
            + path_sep() + seq![id_tv("Deserialize"@), p_tv(','), id_tv("Clone"@)]);
        assert(derive_v =~= derive_s);
        let client_s = seq![id_tv("quux"@)] + path_sep() + seq![id_tv("prelude"@)] + path_sep() + seq![
            id_tv("client"@),
        ];
        assert(client_v =~= client_s);
        assert(matching_v =~= seq![
            id_tv("match"@),
            id_tv("self"@),
            TokenView::Group(Delimiter::Brace, arms_tokens(all.len())),
            p_tv(';'),
        ]);
        assert(hydrate_v =~= seq![
            p_tv('#'),
            TokenView::Group(Delimiter::Bracket, client_s),
            id_tv("fn"@),
            id_tv("hydrate"@),
            TokenView::Group(Delimiter::Parenthesis, seq![id_tv("self"@)]),
            TokenView::Group(Delimiter::Brace, matching_v),
        ]);
        assert(head =~= seq![
            p_tv('#'),
            TokenView::Group(Delimiter::Bracket, derive_s),
            id_tv("pub"@),
            id_tv("enum"@),
            id_tv("Routes"@),
            TokenView::Group(Delimiter::Brace, variants_tokens(all)),
        ]);
        assert(all_tokens_view(v) =~= routes_tokens(all));
    }
    v
}

/// The `routes!` macro on its tokens: the code of the route types it lists, or
/// `SyntaxError` when they do not read as a list of types.
pub fn routes(tokens: &Vec<TokenTree>) -> (r: Result<Vec<TokenTree>, SyntaxError>)
    ensures
        match r {
            Ok(code) => spec_type_list(*tokens, 0) matches Some(types) && all_tokens_view(code)
                == routes_tokens(types),
            Err(_) => spec_type_list(*tokens, 0) is None,
        },
{
    match parse_types(tokens) {
        Ok(types) => Ok(routes_code(&types)),
        Err(e) => Err(e),
    }
}

} // verus!
