//! Tokens of the view grammar, as plain values: identifiers, punctuation, literals
//! and delimited groups.

use vstd::prelude::*;

verus! {

/// The delimiters of a group.
#[derive(Clone, Copy, Debug, PartialEq, Eq, Structural)]
pub enum Delimiter {
    Parenthesis,
    Brace,
    Bracket,
    /// An invisible delimiter.
    Invisible,
}

/// Whether a punctuation character is joined to the next one (as in `::`).
#[derive(Clone, Copy, Debug, PartialEq, Eq, Structural)]
pub enum Spacing {
    Alone,
    Joint,
}

/// One token tree: an identifier, a punctuation character, a literal (by its
/// source text), or a delimited group of token trees.
#[derive(Debug, PartialEq, Eq)]
pub enum TokenTree {
    Group(Delimiter, Vec<TokenTree>),
    Ident(String),
    Punct(char, Spacing),
    Literal(String),
}

/// A Rust expression, held by its token trees.
#[derive(Debug, PartialEq, Eq)]
pub struct Expr {
    pub tokens: Vec<TokenTree>,
}

/// Whether `syn` takes the identifier text `name` as an identifier, and not as a
/// keyword or `_`.
pub uninterp spec fn syn_accepts_ident(name: Seq<char>) -> bool;

/// Whether `syn` reads the literal text `text` as an integer literal.
pub uninterp spec fn syn_int_literal(text: Seq<char>) -> bool;

/// The value of the literal text `text` when `syn` reads it as a string literal.
pub uninterp spec fn syn_string_literal(text: Seq<char>) -> Option<Seq<char>>;

/// `syn::parse_str::<syn::Ident>`: whether `syn` accepts `name` as an identifier
/// (keywords and `_` are refused). The keyword list is not restated.
#[verifier::external_body]
pub(crate) fn accepts_ident(name: &str) -> (r: bool)
    ensures
        r == syn_accepts_ident(name@),
{
    syn::parse_str::<syn::Ident>(name).is_ok()
}

/// `syn::parse_str::<syn::LitInt>`: whether `syn` reads `text` as an integer literal.
/// The literal grammar is not restated.
#[verifier::external_body]
pub(crate) fn is_int_literal(text: &str) -> (r: bool)
    ensures
        r == syn_int_literal(text@),
{
    syn::parse_str::<syn::LitInt>(text).is_ok()
}

/// `syn::parse_str::<syn::LitStr>` followed by `LitStr::value`: the value of `text`
/// as a string literal, or `None` when it is no string literal. The escapes are not
/// restated.
#[verifier::external_body]
pub(crate) fn string_literal_value(text: &str) -> (r: Option<String>)
    ensures
        match r {
            Some(v) => syn_string_literal(text@) == Some(v@),
            None => syn_string_literal(text@) is None,
        },
{
    syn::parse_str::<syn::LitStr>(text).ok().map(|lit| lit.value())
}

/// Whether token `i` is an identifier that `syn` accepts as one.
pub open spec fn is_ident_at(tokens: Seq<TokenTree>, i: int) -> bool {
    &&& 0 <= i < tokens.len()
    &&& tokens[i] matches TokenTree::Ident(name) && syn_accepts_ident(name@)
}

/// Whether token `i` is the punctuation character `c`.
pub open spec fn is_punct_at(tokens: Seq<TokenTree>, i: int, c: char) -> bool {
    &&& 0 <= i < tokens.len()
    &&& tokens[i] matches TokenTree::Punct(p, _) && p == c
}

/// Whether token `i` is an identifier that `syn` accepts, as `is_ident_at` says.
pub fn peek_ident(tokens: &Vec<TokenTree>, i: usize) -> (r: bool)
    ensures
        r == is_ident_at(tokens@, i as int),
{
    if i < tokens.len() {
        match &tokens[i] {
            TokenTree::Ident(name) => accepts_ident(name.as_str()),
            _ => false,
        }
    } else {
        false
    }
}

/// Whether token `i` is the punctuation character `c`, as `is_punct_at` says.
pub fn peek_punct(tokens: &Vec<TokenTree>, i: usize, c: char) -> (r: bool)
    ensures
        r == is_punct_at(tokens@, i as int, c),
{
    if i < tokens.len() {
        match &tokens[i] {
            TokenTree::Punct(p, _) => *p == c,
            _ => false,
        }
    } else {
        false
    }
}


/// A token tree as a mathematical value.
pub enum TokenView {
    Group(Delimiter, Seq<TokenView>),
    Ident(Seq<char>),
    Punct(char, Spacing),
    Literal(Seq<char>),
}

/// The value of a token tree.
pub open spec fn token_view(t: TokenTree) -> TokenView
    decreases t, 0int,
{
    match t {
        TokenTree::Group(d, inner) => {
            proof {
                assert(decreases_to!(t => inner));
            }
            TokenView::Group(d, tokens_view(inner, inner@.len() as int))
        },
        TokenTree::Ident(name) => TokenView::Ident(name@),
        TokenTree::Punct(c, spacing) => TokenView::Punct(c, spacing),
        TokenTree::Literal(text) => TokenView::Literal(text@),
    }
}

/// The values of the first `n` token trees of `v`.
pub open spec fn tokens_view(v: Vec<TokenTree>, n: int) -> Seq<TokenView>
    decreases v, n,
{
    if n <= 0 || n > v@.len() {
        Seq::empty()
    } else {
        proof {
            assert(decreases_to!(v => v@));
            assert(decreases_to!(v@ => v@[n - 1]));
        }
        tokens_view(v, n - 1).push(token_view(v@[n - 1]))
    }
}

impl View for Expr {
    type V = Seq<TokenView>;

    open spec fn view(&self) -> Seq<TokenView> {
        tokens_view(self.tokens, self.tokens@.len() as int)
    }
}

/// Token trees with the same values have the same value as a list.
pub proof fn lemma_tokens_view_same(a: Vec<TokenTree>, b: Vec<TokenTree>, n: int)
    requires
        n <= a@.len(),
        n <= b@.len(),
        forall|i: int| 0 <= i < n ==> token_view(#[trigger] a@[i]) == token_view(b@[i]),
    ensures
        tokens_view(a, n) == tokens_view(b, n),
    decreases n,
{
    if n > 0 {
        lemma_tokens_view_same(a, b, n - 1);
    }
}

/// The value of a list of token trees has one value per tree.
pub proof fn lemma_tokens_view_index(v: Vec<TokenTree>, n: int)
    requires
        0 <= n <= v@.len(),
    ensures
        tokens_view(v, n).len() == n,
        forall|i: int| 0 <= i < n ==> #[trigger] tokens_view(v, n)[i] == token_view(v@[i]),
    decreases n,
{
    if n > 0 {
        lemma_tokens_view_index(v, n - 1);
    }
}

/// A copy of the token trees `v`.
pub fn clone_tokens(v: &Vec<TokenTree>) -> (r: Vec<TokenTree>)
    ensures
        r@.len() == v@.len(),
        forall|i: int| 0 <= i < v@.len() ==> token_view(#[trigger] r@[i]) == token_view(v@[i]),
        tokens_view(r, r@.len() as int) == tokens_view(*v, v@.len() as int),
    decreases v,
{
    let mut r: Vec<TokenTree> = Vec::new();
    let mut i: usize = 0;
    while i < v.len()
        invariant
            i <= v@.len(),
            r@.len() == i,
            forall|k: int| 0 <= k < i ==> token_view(#[trigger] r@[k]) == token_view(v@[k]),
        decreases v@.len() - i,
    {
        proof {
            assert(decreases_to!(v => v@));
            assert(decreases_to!(v@ => v@[i as int]));
        }
        let t = clone_token(&v[i]);
        r.push(t);
        i = i + 1;
    }
    proof {
        lemma_tokens_view_same(r, *v, r@.len() as int);
    }
    r
}

/// A copy of the token tree `t`.
pub fn clone_token(t: &TokenTree) -> (r: TokenTree)
    ensures
        token_view(r) == token_view(*t),
    decreases t,
{
    match t {
        TokenTree::Group(d, inner) => {
            proof {
                assert(decreases_to!(t => inner));
            }
            let copy = clone_tokens(inner);
            TokenTree::Group(*d, copy)
        },
        TokenTree::Ident(name) => TokenTree::Ident(name.clone()),
        TokenTree::Punct(c, spacing) => TokenTree::Punct(*c, *spacing),
        TokenTree::Literal(text) => TokenTree::Literal(text.clone()),
    }
}

impl Expr {
    /// A copy of the expression.
    pub fn copy(&self) -> (r: Expr)
        ensures
            r@ == self@,
    {
        let tokens = clone_tokens(&self.tokens);
        Expr { tokens }
    }
}


/// The values of all the token trees of `v`.
pub open spec fn all_tokens_view(v: Vec<TokenTree>) -> Seq<TokenView> {
    tokens_view(v, v@.len() as int)
}

/// Appends the token tree `t` to `v`.
pub fn push_token(v: &mut Vec<TokenTree>, t: TokenTree)
    ensures
        all_tokens_view(*final(v)) == all_tokens_view(*old(v)).push(token_view(t)),
{
    let ghost before = *v;
    v.push(t);
    proof {
        lemma_tokens_view_same(*v, before, before@.len() as int);
    }
}

/// Appends copies of the token trees `w` to `v`.
pub fn append_tokens(v: &mut Vec<TokenTree>, w: &Vec<TokenTree>)
    ensures
        all_tokens_view(*final(v)) == all_tokens_view(*old(v)) + all_tokens_view(*w),
{
    let ghost start = all_tokens_view(*v);
    let mut i: usize = 0;
    while i < w.len()
        invariant
            i <= w@.len(),
            all_tokens_view(*v) == start + tokens_view(*w, i as int),
        decreases w@.len() - i,
    {
        let t = clone_token(&w[i]);
        push_token(v, t);
        i = i + 1;
        assert(start + tokens_view(*w, i as int) =~= (start + tokens_view(*w, i - 1)).push(
            token_view(w@[i - 1]),
        ));
    }
}

/// The token tree of the identifier `name`.
pub fn ident(name: &str) -> (t: TokenTree)
    ensures
        token_view(t) == TokenView::Ident(name@),
{
    TokenTree::Ident(String::from_str(name))
}

/// The token tree of the punctuation character `c`, not joined to the next one.
pub fn punct(c: char) -> (t: TokenTree)
    ensures
        token_view(t) == TokenView::Punct(c, Spacing::Alone),
{
    TokenTree::Punct(c, Spacing::Alone)
}

/// The group of the token trees `inner` within the delimiter `d`.
pub fn group(d: Delimiter, inner: Vec<TokenTree>) -> (t: TokenTree)
    ensures
        token_view(t) == TokenView::Group(d, all_tokens_view(inner)),
{
    TokenTree::Group(d, inner)
}

/// Appends the path separator `::` to `v`.
pub fn push_path_sep(v: &mut Vec<TokenTree>)
    ensures
        all_tokens_view(*final(v)) == all_tokens_view(*old(v)) + path_sep(),
{
    let ghost start = all_tokens_view(*v);
    push_token(v, TokenTree::Punct(':', Spacing::Joint));
    push_token(v, TokenTree::Punct(':', Spacing::Alone));
    assert(all_tokens_view(*v) =~= start + path_sep());
}

/// The tokens of the path separator `::`.
pub open spec fn path_sep() -> Seq<TokenView> {
    seq![TokenView::Punct(':', Spacing::Joint), TokenView::Punct(':', Spacing::Alone)]
}

/// How a character stands within a string literal: `"` and `\` behind a
/// backslash, newline, carriage return, tab and NUL as `\n`, `\r`, `\t` and `\0`,
/// any other character as itself.
pub open spec fn literal_char_text(c: char) -> Seq<char> {
    if c == '"' {
        seq!['\\', '"']
    } else if c == '\\' {
        seq!['\\', '\\']
    } else if c == '\n' {
        seq!['\\', 'n']
    } else if c == '\r' {
        seq!['\\', 'r']
    } else if c == '\t' {
        seq!['\\', 't']
    } else if c == '\0' {
        seq!['\\', '0']
    } else {
        seq![c]
    }
}

/// The characters of `value`, each as it stands within a string literal.
pub open spec fn literal_body(value: Seq<char>) -> Seq<char>
    decreases value.len(),
{
    if value.len() == 0 {
        Seq::empty()
    } else {
        literal_body(value.drop_last()) + literal_char_text(value.last())
    }
}

/// The source text of a string literal whose value is `value`: `value` between
/// double quotes, escaped as `literal_char_text` says.
pub open spec fn string_literal_text(value: Seq<char>) -> Seq<char> {
    seq!['"'] + literal_body(value) + seq!['"']
}

/// The source text of a string literal whose value is `value`, as
/// `string_literal_text` says.
pub fn string_literal(value: &str) -> (r: String)
    ensures
        r@ == string_literal_text(value@),
{
    let n = value.unicode_len();
    let mut out = String::new();
    crate::text::push_char(&mut out, '"');
    let mut i: usize = 0;
    while i < n
        invariant
            n == value@.len(),
            i <= n,
            out@ == seq!['"'] + literal_body(value@.take(i as int)),
        decreases n - i,
    {
        let c = value.get_char(i);
        let ghost before = out@;
        if c == '"' {
            crate::text::push_char(&mut out, '\\');
            crate::text::push_char(&mut out, '"');
        } else if c == '\\' {
            crate::text::push_char(&mut out, '\\');
            crate::text::push_char(&mut out, '\\');
        } else if c == '\n' {
            crate::text::push_char(&mut out, '\\');
            crate::text::push_char(&mut out, 'n');
        } else if c == '\r' {
            crate::text::push_char(&mut out, '\\');
            crate::text::push_char(&mut out, 'r');
        } else if c == '\t' {
            crate::text::push_char(&mut out, '\\');
            crate::text::push_char(&mut out, 't');
        } else if c == '\0' {
            crate::text::push_char(&mut out, '\\');
            crate::text::push_char(&mut out, '0');
        } else {
            crate::text::push_char(&mut out, c);
        }
        assert(out@ =~= before + literal_char_text(c));
        assert(value@.take(i + 1).drop_last() =~= value@.take(i as int));
        i = i + 1;
    }
    assert(value@.take(n as int) =~= value@);
    crate::text::push_char(&mut out, '"');
    out
}

} // verus!
