//! The `init_components!` macro: the component types of an application (and the
//! initialisation script) become one enum, with conversions both ways and the
//! rendering of whichever component a value holds.

use vstd::prelude::*;
use crate::html::client::{unit_token, unit_tv};
use crate::macros::{arrow_tv, id_tv, p_tv, push_arrow, push_id, push_p};
use crate::macros::routes::{parse_types_from, spec_type_list, types_view};
use crate::tokens::{
    all_tokens_view, append_tokens, group, is_punct_at, path_sep, peek_punct, push_path_sep,
    push_token, Delimiter, Expr, TokenTree, TokenView,
};
use crate::view::generate::client::{fat_arrow, push_fat_arrow};
use crate::view::generate::server::{decimal, push_decimal};
use crate::view::parse::grammar::SyntaxError;

verus! {

/// The name of the variant of component `j`: `Component<j>`.
pub open spec fn component_name(j: nat) -> TokenView {
    id_tv("Component"@ + decimal(j))
}

/// The tokens of `quux::initialisation_script::InitialisationScript<ComponentEnum>`,
/// the type that always comes last.
pub open spec fn script_type() -> Seq<TokenView> {
    seq![id_tv("quux"@)] + path_sep() + seq![id_tv("initialisation_script"@)] + path_sep() + seq![
        id_tv("InitialisationScript"@),
        p_tv('<'),
        id_tv("ComponentEnum"@),
        p_tv('>'),
    ]
}

/// The variants of the components, with `,` between two of them.
pub open spec fn component_variants(types: Seq<Seq<TokenView>>) -> Seq<TokenView>
    decreases types.len(),
{
    if types.len() == 0 {
        Seq::empty()
    } else if types.len() == 1 {
        seq![component_name(0), TokenView::Group(Delimiter::Parenthesis, types[0])]
    } else {
        component_variants(types.drop_last()) + seq![
            p_tv(','),
            component_name((types.len() - 1) as nat),
            TokenView::Group(Delimiter::Parenthesis, types.last()),
        ]
    }
}

/// `impl From<<ty>> for ComponentEnum { fn from(value: <ty>) -> Self {
/// Self::Component<j>(value) } }` followed by `impl TryFrom<ComponentEnum> for <ty> {
/// type Error = (); fn try_from(value: ComponentEnum) -> Result<Self, Self::Error> {
/// if let ComponentEnum::Component<j>(component) = value { Ok(component) } else {
/// Err(()) } } }`.
pub open spec fn conversions(j: nat, ty: Seq<TokenView>) -> Seq<TokenView> {
    let from_body = seq![id_tv("Self"@)] + path_sep() + seq![
        component_name(j),
        TokenView::Group(Delimiter::Parenthesis, seq![id_tv("value"@)]),
    ];
    let from_fn = seq![
        id_tv("fn"@),
        id_tv("from"@),
        TokenView::Group(Delimiter::Parenthesis, seq![id_tv("value"@), p_tv(':')] + ty),
    ] + arrow_tv() + seq![id_tv("Self"@), TokenView::Group(Delimiter::Brace, from_body)];
    let if_let = seq![id_tv("if"@), id_tv("let"@), id_tv("ComponentEnum"@)] + path_sep() + seq![
        component_name(j),
        TokenView::Group(Delimiter::Parenthesis, seq![id_tv("component"@)]),
        p_tv('='),
        id_tv("value"@),
        TokenView::Group(
            Delimiter::Brace,
            seq![id_tv("Ok"@), TokenView::Group(Delimiter::Parenthesis, seq![id_tv("component"@)])],
        ),
        id_tv("else"@),
        TokenView::Group(
            Delimiter::Brace,
            seq![id_tv("Err"@), TokenView::Group(Delimiter::Parenthesis, seq![unit_tv()])],
        ),
    ];
    let try_body = seq![
        id_tv("type"@),
        id_tv("Error"@),
        p_tv('='),
        unit_tv(),
        p_tv(';'),
        id_tv("fn"@),
        id_tv("try_from"@),
        TokenView::Group(
            Delimiter::Parenthesis,
            seq![id_tv("value"@), p_tv(':'), id_tv("ComponentEnum"@)],
        ),
    ] + arrow_tv() + seq![id_tv("Result"@), p_tv('<'), id_tv("Self"@), p_tv(','), id_tv("Self"@)]
        + path_sep() + seq![id_tv("Error"@), p_tv('>'), TokenView::Group(Delimiter::Brace, if_let)];
    seq![id_tv("impl"@), id_tv("From"@), p_tv('<')] + ty + seq![
        p_tv('>'),
        id_tv("for"@),
        id_tv("ComponentEnum"@),
        TokenView::Group(Delimiter::Brace, from_fn),
        id_tv("impl"@),
        id_tv("TryFrom"@),
        p_tv('<'),
        id_tv("ComponentEnum"@),
        p_tv('>'),
        id_tv("for"@),
    ] + ty + seq![TokenView::Group(Delimiter::Brace, try_body)]
}

/// The conversions of each component, one after the other.
pub open spec fn all_conversions(types: Seq<Seq<TokenView>>) -> Seq<TokenView>
    decreases types.len(),
{
    if types.len() == 0 {
        Seq::empty()
    } else {
        all_conversions(types.drop_last()) + conversions((types.len() - 1) as nat, types.last())
    }
}

/// The arm for component `j`: `Self::Component<j>(component) =>
/// component.render(context).into()`.
pub open spec fn render_arm(j: nat) -> Seq<TokenView> {
    seq![id_tv("Self"@)] + path_sep() + seq![
        component_name(j),
        TokenView::Group(Delimiter::Parenthesis, seq![id_tv("component"@)]),
    ] + fat_arrow() + seq![
        id_tv("component"@),
        p_tv('.'),
        id_tv("render"@),
        TokenView::Group(Delimiter::Parenthesis, seq![id_tv("context"@)]),
        p_tv('.'),
        id_tv("into"@),
        unit_tv(),
    ]
}

/// The arms for components `0` to `n - 1`, with `,` between two of them.
pub open spec fn render_arms(n: nat) -> Seq<TokenView>
    decreases n,
{
    if n == 0 {
        Seq::empty()
    } else if n == 1 {
        render_arm(0)
    } else {
        render_arms((n - 1) as nat) + seq![p_tv(',')] + render_arm((n - 1) as nat)
    }
}

/// The tokens of `fn render(self, context: render::Context<Self>) ->
/// quux::component::EnumRenderOutput<Self> { match self { <arms> } }`.
pub open spec fn render_fn(n: nat) -> Seq<TokenView> {
    seq![
        id_tv("fn"@),
        id_tv("render"@),
        TokenView::Group(
            Delimiter::Parenthesis,
            seq![id_tv("self"@), p_tv(','), id_tv("context"@), p_tv(':'), id_tv("render"@)] + path_sep()
                + seq![id_tv("Context"@), p_tv('<'), id_tv("Self"@), p_tv('>')],
        ),
    ] + arrow_tv() + seq![id_tv("quux"@)] + path_sep() + seq![id_tv("component"@)] + path_sep() + seq![
        id_tv("EnumRenderOutput"@),
        p_tv('<'),
        id_tv("Self"@),
        p_tv('>'),
        TokenView::Group(
            Delimiter::Brace,
            seq![id_tv("match"@), id_tv("self"@), TokenView::Group(Delimiter::Brace, render_arms(n))],
        ),
    ]
}

/// The code of the components `types`, the initialisation script added as the last
/// one: `#[derive(Serialize, Deserialize, Clone, Debug)] pub enum ComponentEnum {
/// <variants> }`, `impl quux::component::Enum for ComponentEnum { <render> }`, then
/// the conversions of each.
pub open spec fn components_tokens(types: Seq<Seq<TokenView>>) -> Seq<TokenView> {
    let all = types.push(script_type());
    seq![
        p_tv('#'),
        TokenView::Group(
            Delimiter::Bracket,
            seq![
                id_tv("derive"@),
                TokenView::Group(
                    Delimiter::Parenthesis,
                    seq![
                        id_tv("Serialize"@),
                        p_tv(','),
                        id_tv("Deserialize"@),
                        p_tv(','),
                        id_tv("Clone"@),
                        p_tv(','),
                        id_tv("Debug"@),
                    ],
                ),
            ],
        ),
        id_tv("pub"@),
        id_tv("enum"@),
        id_tv("ComponentEnum"@),
        TokenView::Group(Delimiter::Brace, component_variants(all)),
        id_tv("impl"@),
        id_tv("quux"@),
    ] + path_sep() + seq![id_tv("component"@)] + path_sep() + seq![
        id_tv("Enum"@),
        id_tv("for"@),
        id_tv("ComponentEnum"@),
        TokenView::Group(Delimiter::Brace, render_fn(all.len())),
    ] + all_conversions(all)
}

/// The token of `component_name(j)`.
fn component_name_token(j: usize) -> (t: TokenTree)
    ensures
        crate::tokens::token_view(t) == component_name(j as nat),
{
    let mut name = String::from_str("Component");
    push_decimal(&mut name, j as u64);
    TokenTree::Ident(name)
}

/// The tokens of `script_type()`.
fn script_type_code() -> (e: Expr)
    ensures
        e@ == script_type(),
{
    let mut v: Vec<TokenTree> = Vec::new();
    push_id(&mut v, "quux");
    push_path_sep(&mut v);
    push_id(&mut v, "initialisation_script");
    push_path_sep(&mut v);
    push_id(&mut v, "InitialisationScript");
    push_p(&mut v, '<');
    push_id(&mut v, "ComponentEnum");
    push_p(&mut v, '>');
    assert(all_tokens_view(v) =~= script_type());
    Expr { tokens: v }
}

/// A group holding the single token tree `t`.
fn single(d: Delimiter, t: TokenTree) -> (g: TokenTree)
    ensures
        crate::tokens::token_view(g) == TokenView::Group(d, seq![crate::tokens::token_view(t)]),
{
    let mut v: Vec<TokenTree> = Vec::new();
    let ghost tv = crate::tokens::token_view(t);
    push_token(&mut v, t);
    assert(all_tokens_view(v) =~= seq![tv]);
    group(d, v)
}

/// The tokens of `conversions(j, ty)`.
#[verifier::rlimit(60)]
fn push_conversions(v: &mut Vec<TokenTree>, j: usize, ty: &Expr)
    ensures
        all_tokens_view(*final(v)) == all_tokens_view(*old(v)) + conversions(j as nat, ty@),
{
    let ghost start = all_tokens_view(*v);
    let mut from_body: Vec<TokenTree> = Vec::new();
    push_id(&mut from_body, "Self");
    push_path_sep(&mut from_body);
    push_token(&mut from_body, component_name_token(j));
    push_token(&mut from_body, single(Delimiter::Parenthesis, crate::tokens::ident("value")));
    let ghost from_body_v = all_tokens_view(from_body);
    let mut param: Vec<TokenTree> = Vec::new();
    push_id(&mut param, "value");
    push_p(&mut param, ':');
    append_tokens(&mut param, &ty.tokens);
    let ghost param_v = all_tokens_view(param);
    let mut from_fn: Vec<TokenTree> = Vec::new();
    push_id(&mut from_fn, "fn");
    push_id(&mut from_fn, "from");
    push_token(&mut from_fn, group(Delimiter::Parenthesis, param));
    push_arrow(&mut from_fn);
    push_id(&mut from_fn, "Self");
    push_token(&mut from_fn, group(Delimiter::Brace, from_body));
    let ghost from_fn_v = all_tokens_view(from_fn);
    let mut ok: Vec<TokenTree> = Vec::new();
    push_id(&mut ok, "Ok");
    push_token(&mut ok, single(Delimiter::Parenthesis, crate::tokens::ident("component")));
    let ghost ok_v = all_tokens_view(ok);
    let mut err: Vec<TokenTree> = Vec::new();
    push_id(&mut err, "Err");
    push_token(&mut err, single(Delimiter::Parenthesis, unit_token()));
    let ghost err_v = all_tokens_view(err);
    let mut if_let: Vec<TokenTree> = Vec::new();
    push_id(&mut if_let, "if");
    push_id(&mut if_let, "let");
    push_id(&mut if_let, "ComponentEnum");
    push_path_sep(&mut if_let);
    push_token(&mut if_let, component_name_token(j));
    push_token(&mut if_let, single(Delimiter::Parenthesis, crate::tokens::ident("component")));
    push_p(&mut if_let, '=');
    push_id(&mut if_let, "value");
    push_token(&mut if_let, group(Delimiter::Brace, ok));
    push_id(&mut if_let, "else");
    push_token(&mut if_let, group(Delimiter::Brace, err));
    let ghost if_let_v = all_tokens_view(if_let);
    let mut try_param: Vec<TokenTree> = Vec::new();
    push_id(&mut try_param, "value");
    push_p(&mut try_param, ':');
    push_id(&mut try_param, "ComponentEnum");
    let ghost try_param_v = all_tokens_view(try_param);
    let mut try_body: Vec<TokenTree> = Vec::new();
    push_id(&mut try_body, "type");
    push_id(&mut try_body, "Error");
    push_p(&mut try_body, '=');
    push_token(&mut try_body, unit_token());
    push_p(&mut try_body, ';');
    push_id(&mut try_body, "fn");
    push_id(&mut try_body, "try_from");
    push_token(&mut try_body, group(Delimiter::Parenthesis, try_param));
    push_arrow(&mut try_body);
    push_id(&mut try_body, "Result");
    push_p(&mut try_body, '<');
    push_id(&mut try_body, "Self");
    push_p(&mut try_body, ',');
    push_id(&mut try_body, "Self");
    push_path_sep(&mut try_body);
    push_id(&mut try_body, "Error");
    push_p(&mut try_body, '>');
    push_token(&mut try_body, group(Delimiter::Brace, if_let));
    let ghost try_body_v = all_tokens_view(try_body);
    push_id(v, "impl");
    push_id(v, "From");
    push_p(v, '<');
    append_tokens(v, &ty.tokens);
    push_p(v, '>');
    push_id(v, "for");
    push_id(v, "ComponentEnum");
    push_token(v, group(Delimiter::Brace, from_fn));
    push_id(v, "impl");
    push_id(v, "TryFrom");
    push_p(v, '<');
    push_id(v, "ComponentEnum");
    push_p(v, '>');
    push_id(v, "for");
    append_tokens(v, &ty.tokens);
    push_token(v, group(Delimiter::Brace, try_body));
    proof {
        let from_body_s = seq![id_tv("Self"@)] + path_sep() + seq![
            component_name(j as nat),
            TokenView::Group(Delimiter::Parenthesis, seq![id_tv("value"@)]),
        ];
        assert(from_body_v =~= from_body_s);
        assert(param_v =~= seq![id_tv("value"@), p_tv(':')] + ty@);
        assert(from_fn_v =~= seq![
            id_tv("fn"@),
            id_tv("from"@),
            TokenView::Group(Delimiter::Parenthesis, seq![id_tv("value"@), p_tv(':')] + ty@),
        ] + arrow_tv() + seq![id_tv("Self"@), TokenView::Group(Delimiter::Brace, from_body_s)]);
        assert(ok_v =~= seq![id_tv("Ok"@), TokenView::Group(Delimiter::Parenthesis, seq![id_tv("component"@)])]);
        assert(err_v =~= seq![id_tv("Err"@), TokenView::Group(Delimiter::Parenthesis, seq![unit_tv()])]);
        let if_let_s = seq![id_tv("if"@), id_tv("let"@), id_tv("ComponentEnum"@)] + path_sep() + seq![
            component_name(j as nat),
            TokenView::Group(Delimiter::Parenthesis, seq![id_tv("component"@)]),
            p_tv('='),
            id_tv("value"@),
            TokenView::Group(Delimiter::Brace, ok_v),
            id_tv("else"@),
            TokenView::Group(Delimiter::Brace, err_v),
        ];
        assert(if_let_v =~= if_let_s);
        assert(try_param_v =~= seq![id_tv("value"@), p_tv(':'), id_tv("ComponentEnum"@)]);
        assert(try_body_v =~= seq![
            id_tv("type"@),
            id_tv("Error"@),
            p_tv('='),
            unit_tv(),
            p_tv(';'),
            id_tv("fn"@),
            id_tv("try_from"@),
            TokenView::Group(Delimiter::Parenthesis, try_param_v),
        ] + arrow_tv() + seq![id_tv("Result"@), p_tv('<'), id_tv("Self"@), p_tv(','), id_tv("Self"@)]
            + path_sep() + seq![id_tv("Error"@), p_tv('>'), TokenView::Group(Delimiter::Brace, if_let_s)]);
        assert(all_tokens_view(*v) =~= start + conversions(j as nat, ty@));
    }
}

/// The tokens of `render_arm(j)`.
fn push_render_arm(v: &mut Vec<TokenTree>, j: usize)
    ensures
        all_tokens_view(*final(v)) == all_tokens_view(*old(v)) + render_arm(j as nat),
{
    let ghost start = all_tokens_view(*v);
    push_id(v, "Self");
    push_path_sep(v);
    push_token(v, component_name_token(j));
    push_token(v, single(Delimiter::Parenthesis, crate::tokens::ident("component")));
    push_fat_arrow(v);
    push_id(v, "component");
    push_p(v, '.');
    push_id(v, "render");
    push_token(v, single(Delimiter::Parenthesis, crate::tokens::ident("context")));
    push_p(v, '.');
    push_id(v, "into");
    push_token(v, unit_token());
    assert(all_tokens_view(*v) =~= start + render_arm(j as nat));
}

/// The tokens of `render_fn(n)`.
fn push_render_fn(v: &mut Vec<TokenTree>, n: usize)
    ensures
        all_tokens_view(*final(v)) == all_tokens_view(*old(v)) + render_fn(n as nat),
{
    let ghost start = all_tokens_view(*v);
    let mut arms: Vec<TokenTree> = Vec::new();
    let mut j: usize = 0;
    while j < n
        invariant
            j <= n,
            all_tokens_view(arms) == render_arms(j as nat),
        decreases n - j,
    {
        if j > 0 {
            push_p(&mut arms, ',');
        }
        push_render_arm(&mut arms, j);
        if j == 0 {
            assert(all_tokens_view(arms) =~= render_arms(1));
        } else {
            assert(all_tokens_view(arms) =~= render_arms((j + 1) as nat));
        }
        j = j + 1;
    }
    let ghost arms_v = all_tokens_view(arms);
    let mut matching: Vec<TokenTree> = Vec::new();
    push_id(&mut matching, "match");
    push_id(&mut matching, "self");
    push_token(&mut matching, group(Delimiter::Brace, arms));
    let ghost matching_v = all_tokens_view(matching);
    let mut params: Vec<TokenTree> = Vec::new();
    push_id(&mut params, "self");
    push_p(&mut params, ',');
    push_id(&mut params, "context");
    push_p(&mut params, ':');
    push_id(&mut params, "render");
    push_path_sep(&mut params);
    push_id(&mut params, "Context");
    push_p(&mut params, '<');
    push_id(&mut params, "Self");
    push_p(&mut params, '>');
    let ghost params_v = all_tokens_view(params);
    push_id(v, "fn");
    push_id(v, "render");
    push_token(v, group(Delimiter::Parenthesis, params));
    push_arrow(v);
    push_id(v, "quux");
    push_path_sep(v);
    push_id(v, "component");
    push_path_sep(v);
    push_id(v, "EnumRenderOutput");
    push_p(v, '<');
    push_id(v, "Self");
    push_p(v, '>');
    push_token(v, group(Delimiter::Brace, matching));
    proof {
        assert(params_v =~= seq![id_tv("self"@), p_tv(','), id_tv("context"@), p_tv(':'), id_tv("render"@)]
            + path_sep() + seq![id_tv("Context"@), p_tv('<'), id_tv("Self"@), p_tv('>')]);
        assert(matching_v =~= seq![
            id_tv("match"@),
            id_tv("self"@),
            TokenView::Group(Delimiter::Brace, render_arms(n as nat)),
        ]);
        assert(all_tokens_view(*v) =~= start + render_fn(n as nat));
    }
}

/// The code of the components `types`, as `components_tokens` says; with the
/// initialisation script there is one type more, which a `usize` must count.
pub fn components_code(types: &Vec<Expr>) -> (r: Vec<TokenTree>)
    requires
        types@.len() < usize::MAX,
    ensures
        all_tokens_view(r) == components_tokens(types_view(types@)),
{
    let ghost given = types_view(types@);
    let script = script_type_code();
    let ghost all = given.push(script_type());
    let n = types.len();
    let mut variants: Vec<TokenTree> = Vec::new();
    let mut impls: Vec<TokenTree> = Vec::new();
    let mut j: usize = 0;
    while j <= n
        invariant
            n == types@.len(),
            n < usize::MAX,
            given == types_view(types@),
            all == given.push(script_type()),
            script@ == script_type(),
            j <= n + 1,
            all_tokens_view(variants) == component_variants(all.take(j as int)),
            all_tokens_view(impls) == all_conversions(all.take(j as int)),
        decreases n + 1 - j,
    {
        let ty: &Expr = if j < n { &types[j] } else { &script };
        assert(ty@ == all[j as int]);
        let ghost taken = all.take(j + 1);
        assert(taken.drop_last() =~= all.take(j as int));
        if j > 0 {
            push_p(&mut variants, ',');
        }
        let mut inner: Vec<TokenTree> = Vec::new();
        append_tokens(&mut inner, &ty.tokens);
        assert(all_tokens_view(inner) =~= ty@);
        push_token(&mut variants, component_name_token(j));
        push_token(&mut variants, group(Delimiter::Parenthesis, inner));
        push_conversions(&mut impls, j, ty);
        if j == 0 {
            assert(all_tokens_view(variants) =~= component_variants(taken));
        } else {
            assert(all_tokens_view(variants) =~= component_variants(taken));
        }
        assert(all_tokens_view(impls) =~= all_conversions(taken));
        j = j + 1;
    }
    assert(all.take((n + 1) as int) =~= all);
    let ghost variants_v = all_tokens_view(variants);
    let mut derive_args: Vec<TokenTree> = Vec::new();
    push_id(&mut derive_args, "Serialize");
    push_p(&mut derive_args, ',');
    push_id(&mut derive_args, "Deserialize");
    push_p(&mut derive_args, ',');
    push_id(&mut derive_args, "Clone");
    push_p(&mut derive_args, ',');
    push_id(&mut derive_args, "Debug");
    let ghost derive_args_v = all_tokens_view(derive_args);
    let mut derive: Vec<TokenTree> = Vec::new();
    push_id(&mut derive, "derive");
    push_token(&mut derive, group(Delimiter::Parenthesis, derive_args));
    let ghost derive_v = all_tokens_view(derive);
    let mut render: Vec<TokenTree> = Vec::new();
    push_render_fn(&mut render, n + 1);
    let mut v: Vec<TokenTree> = Vec::new();
    push_p(&mut v, '#');
    push_token(&mut v, group(Delimiter::Bracket, derive));
    push_id(&mut v, "pub");
    push_id(&mut v, "enum");
    push_id(&mut v, "ComponentEnum");
    push_token(&mut v, group(Delimiter::Brace, variants));
    push_id(&mut v, "impl");
    push_id(&mut v, "quux");
    push_path_sep(&mut v);
    push_id(&mut v, "component");
    push_path_sep(&mut v);
    push_id(&mut v, "Enum");
    push_id(&mut v, "for");
    push_id(&mut v, "ComponentEnum");
    push_token(&mut v, group(Delimiter::Brace, render));
    append_tokens(&mut v, &impls);
    proof {
        assert(derive_args_v =~= seq![
            id_tv("Serialize"@),
            p_tv(','),
            id_tv("Deserialize"@),
            p_tv(','),
            id_tv("Clone"@),
            p_tv(','),
            id_tv("Debug"@),
        ]);
        assert(derive_v =~= seq![
            id_tv("derive"@),
            TokenView::Group(Delimiter::Parenthesis, derive_args_v),
        ]);
        assert(all.len() == n + 1);
        assert(all_tokens_view(v) =~= components_tokens(given));
    }
    v
}

/// The `init_components!` macro on its tokens: an optional `$` first (which asks
/// for a record of the expansion), then the component types; their code and whether
/// the record is asked for, or `SyntaxError` when they do not read as a list of
/// types.
pub fn init_components(tokens: &Vec<TokenTree>) -> (r: Result<(Vec<TokenTree>, bool), SyntaxError>)
    ensures
        ({
            let magic = is_punct_at(tokens@, 0, '$');
            let start: int = if magic { 1 } else { 0 };
            match r {
                Ok((code, record)) => {
                    &&& record == magic
                    &&& spec_type_list(*tokens, start) matches Some(types) && all_tokens_view(code)
                        == components_tokens(types)
                },
                Err(_) => spec_type_list(*tokens, start) is None,
            }
        }),
{
    let magic = peek_punct(tokens, 0, '$');
    let start: usize = if magic { 1 } else { 0 };
    match parse_types_from(tokens, start) {
        Ok(types) => {
            let total = tokens.len();
            proof {
                lemma_type_list_len(*tokens, start as int);
                assert(types_view(types@).len() == types@.len());
                assert(2 * types@.len() <= total + 1);
            }
            Ok((components_code(&types), magic))
        },
        Err(e) => Err(e),
    }
}

/// A list of types needs a comma between two of them, so it has at most half as
/// many types as tokens, rounded up.
pub proof fn lemma_type_list_len(v: Vec<TokenTree>, p: int)
    requires
        0 <= p <= v@.len(),
    ensures
        spec_type_list(v, p) matches Some(l) ==> 2 * l.len() <= v@.len() - p + 1,
    decreases v@.len() - p,
{
    if p < v@.len() {
        crate::macros::routes::lemma_type_end_bounds(v, p, v@.len() as int);
        if let Some(e) = crate::view::parse::grammar::type_end_from(v, p, v@.len() as int) {
            if e < v@.len() && is_punct_at(v@, e, ',') {
                lemma_type_list_len(v, e + 1);
            }
        }
    }
}

} // verus!
