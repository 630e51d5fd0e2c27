//! HTML identifiers: tag names and attribute keys such as `data-id`, `on:click`
//! or `h1`, written as identifiers joined by `-`, `:`, `.` and integers, or as a
//! string literal.

use vstd::prelude::*;
use crate::segment::is_digit;
use crate::text::push_str;
use crate::tokens::{
    accepts_ident, is_ident_at, is_int_literal, peek_ident, string_literal_value,
    syn_accepts_ident, syn_int_literal, syn_string_literal, TokenTree,
};

verus! {

/// An HTML identifier.
#[derive(Debug, PartialEq, Eq)]
pub struct HtmlIdent(pub String);

impl HtmlIdent {
    /// The text of the identifier.
    pub fn as_str(&self) -> (s: &str)
        ensures
            s@ == self.0@,
    {
        self.0.as_str()
    }
}

/// Why no HTML identifier could be read.
#[derive(Clone, Copy, Debug, PartialEq, Eq, Structural)]
pub enum IdentError {
    /// The first token is no identifier ("expected identifier").
    ExpectedIdent,
    /// Two identifiers follow each other ("unexpected whitespace").
    UnexpectedWhitespace,
}

/// The number of `.` characters in `s`.
pub open spec fn dot_count(s: Seq<char>) -> nat
    decreases s.len(),
{
    if s.len() == 0 {
        0
    } else {
        dot_count(s.drop_last()) + if s.last() == '.' {
            1nat
        } else {
            0nat
        }
    }
}

/// Whether `s` is a number written as decimal digits with one `.` among them, the
/// first character a digit (`1.`, `1.5`).
pub open spec fn is_dotted_number(s: Seq<char>) -> bool {
    &&& s.len() > 0
    &&& is_digit(s[0])
    &&& dot_count(s) == 1
    &&& forall|k: int| 0 <= k < s.len() ==> is_digit(#[trigger] s[k]) || s[k] == '.'
}

/// Whether `text` is a number written as digits with one `.`, as `is_dotted_number`
/// says.
fn dotted_number(text: &str) -> (r: bool)
    ensures
        r == is_dotted_number(text@),
{
    let n = text.unicode_len();
    if n == 0 {
        return false;
    }
    let first = text.get_char(0);
    if !('0' <= first && first <= '9') {
        return false;
    }
    let mut dots: usize = 0;
    let mut i: usize = 0;
    while i < n
        invariant
            n == text@.len(),
            i <= n,
            dots == dot_count(text@.take(i as int)),
            dots <= i,
            forall|k: int| 0 <= k < i ==> is_digit(#[trigger] text@[k]) || text@[k] == '.',
        decreases n - i,
    {
        let c = text.get_char(i);
        assert(text@.take(i + 1).drop_last() =~= text@.take(i as int));
        if c == '.' {
            dots = dots + 1;
        } else if !('0' <= c && c <= '9') {
            return false;
        }
        i = i + 1;
    }
    assert(text@.take(n as int) =~= text@);
    dots == 1
}

/// The rest of an HTML identifier from token `pos` on: its text and the position
/// after it. It takes `-`, `:`, `.`, integer literals, identifiers that no
/// identifier follows, and, when `dotted` holds, numbers written as digits with one
/// `.` among them (such as `1.`, which reads as a float literal).
pub open spec fn ident_tail(tokens: Seq<TokenTree>, pos: int, dotted: bool) -> (Seq<char>, int)
    decreases tokens.len() - pos,
{
    if pos < 0 || pos >= tokens.len() {
        (Seq::empty(), pos)
    } else {
        let rest = ident_tail(tokens, pos + 1, dotted);
        match tokens[pos] {
            TokenTree::Punct(c, _) => if c == '-' || c == ':' || c == '.' {
                (seq![c] + rest.0, rest.1)
            } else {
                (Seq::empty(), pos)
            },
            TokenTree::Literal(text) => if syn_int_literal(text@) || (dotted && is_dotted_number(text@)) {
                (text@ + rest.0, rest.1)
            } else {
                (Seq::empty(), pos)
            },
            TokenTree::Ident(name) => if syn_accepts_ident(name@) && !is_ident_at(
                tokens,
                pos + 1,
            ) {
                (name@ + rest.0, rest.1)
            } else {
                (Seq::empty(), pos)
            },
            TokenTree::Group(_, _) => (Seq::empty(), pos),
        }
    }
}

/// An HTML identifier read from token `pos` on: its text and the position after
/// it. `allow_string` selects the grammar of view macros, where a string literal
/// stands for its value and only integer literals go into the rest of an identifier;
/// the first form of the view grammar reads no string literal but also takes numbers
/// with one `.` (such as `1.`) there.
pub open spec fn spec_html_ident(tokens: Seq<TokenTree>, pos: int, allow_string: bool) -> Result<
    (Seq<char>, int),
    IdentError,
> {
    if allow_string && 0 <= pos < tokens.len() && tokens[pos] is Literal
        && syn_string_literal(tokens[pos]->Literal_0@) is Some {
        Ok((syn_string_literal(tokens[pos]->Literal_0@)->Some_0, pos + 1))
    } else if !is_ident_at(tokens, pos) {
        Err(IdentError::ExpectedIdent)
    } else if is_ident_at(tokens, pos + 1) {
        Err(IdentError::UnexpectedWhitespace)
    } else {
        let tail = ident_tail(tokens, pos + 1, !allow_string);
        Ok((tokens[pos]->Ident_0@ + tail.0, tail.1))
    }
}

/// The rest of an identifier ends at or after where it starts, within the tokens.
pub proof fn lemma_ident_tail_end(tokens: Seq<TokenTree>, pos: int, dotted: bool)
    requires
        0 <= pos <= tokens.len(),
    ensures
        pos <= ident_tail(tokens, pos, dotted).1 <= tokens.len(),
    decreases tokens.len() - pos,
{
    if pos < tokens.len() {
        lemma_ident_tail_end(tokens, pos + 1, dotted);
    }
}

/// An HTML identifier read from token `pos` on ends after `pos`, within the tokens.
pub proof fn lemma_html_ident_end(tokens: Seq<TokenTree>, pos: int, allow_string: bool)
    requires
        0 <= pos <= tokens.len(),
    ensures
        spec_html_ident(tokens, pos, allow_string) matches Ok((_, e)) ==> pos < e <= tokens.len(),
{
    if is_ident_at(tokens, pos) {
        lemma_ident_tail_end(tokens, pos + 1, !allow_string);
    }
}

/// Reads an HTML identifier from token `pos` on, as `spec_html_ident` says.
pub fn parse_html_ident(tokens: &Vec<TokenTree>, pos: usize, allow_string: bool) -> (r: Result<
    (String, usize),
    IdentError,
>)
    ensures
        match r {
            Ok((text, end)) => spec_html_ident(tokens@, pos as int, allow_string) == Ok::<
                (Seq<char>, int),
                IdentError,
            >((text@, end as int)),
            Err(e) => spec_html_ident(tokens@, pos as int, allow_string) == Err::<
                (Seq<char>, int),
                IdentError,
            >(e),
        },
{
    if allow_string && pos < tokens.len() {
        if let TokenTree::Literal(text) = &tokens[pos] {
            if let Some(value) = string_literal_value(text.as_str()) {
                return Ok((value, pos + 1));
            }
        }
    }
    let first = peek_ident(tokens, pos);
    if !first {
        return Err(IdentError::ExpectedIdent);
    }
    assert(pos < tokens.len());
    if peek_ident(tokens, pos + 1) {
        return Err(IdentError::UnexpectedWhitespace);
    }
    let mut result = String::new();
    if let TokenTree::Ident(name) = &tokens[pos] {
        push_str(&mut result, name.as_str());
    }
    let dotted = !allow_string;
    let ghost t = tokens@;
    let ghost head = t[pos as int]->Ident_0@;
    let mut i = pos + 1;
    assert(result@ =~= head);
    assert(head + ident_tail(t, pos + 1, dotted).0 =~= result@ + ident_tail(t, i as int, dotted).0);
    while i < tokens.len()
        invariant
            t == tokens@,
            dotted == !allow_string,
            pos + 1 <= i <= tokens.len(),
            is_ident_at(t, pos as int),
            !is_ident_at(t, pos + 1),
            head == t[pos as int]->Ident_0@,
            head + ident_tail(t, pos + 1, dotted).0 == result@ + ident_tail(t, i as int, dotted).0,
            ident_tail(t, pos + 1, dotted).1 == ident_tail(t, i as int, dotted).1,
        decreases tokens.len() - i,
    {
        let ghost rest = ident_tail(t, i + 1, dotted);
        let ghost before = result@;
        let take = match &tokens[i] {
            TokenTree::Punct(c, _) => {
                if *c == '-' || *c == ':' || *c == '.' {
                    crate::text::push_char(&mut result, *c);
                    assert(before + ident_tail(t, i as int, dotted).0 =~= result@ + rest.0);
                    true
                } else {
                    false
                }
            },
            TokenTree::Literal(text) => {
                if is_int_literal(text.as_str()) || (dotted && dotted_number(text.as_str())) {
                    push_str(&mut result, text.as_str());
                    assert(before + ident_tail(t, i as int, dotted).0 =~= result@ + rest.0);
                    true
                } else {
                    false
                }
            },
            TokenTree::Ident(name) => {
                if accepts_ident(name.as_str()) && !peek_ident(tokens, i + 1) {
                    push_str(&mut result, name.as_str());
                    assert(before + ident_tail(t, i as int, dotted).0 =~= result@ + rest.0);
                    true
                } else {
                    false
                }
            },
            TokenTree::Group(_, _) => false,
        };
        if !take {
            assert(ident_tail(t, i as int, dotted).0 =~= Seq::<char>::empty());
            assert(ident_tail(t, i as int, dotted).1 == i);
            assert(head + ident_tail(t, pos + 1, dotted).0 =~= result@);
            return Ok((result, i));
        }
        i = i + 1;
    }
    assert(ident_tail(t, i as int, dotted).0 =~= Seq::<char>::empty());
    assert(head + ident_tail(t, pos + 1, dotted).0 =~= result@);
    Ok((result, i))
}

impl HtmlIdent {
    /// Reads an HTML identifier, or a string literal standing for one, from token
    /// `pos` on; with the position after it.
    pub fn parse(tokens: &Vec<TokenTree>, pos: usize) -> (r: Result<(HtmlIdent, usize), IdentError>)
        ensures
            match r {
                Ok((ident, end)) => spec_html_ident(tokens@, pos as int, true) == Ok::<
                    (Seq<char>, int),
                    IdentError,
                >((ident.0@, end as int)),
                Err(e) => spec_html_ident(tokens@, pos as int, true) == Err::<
                    (Seq<char>, int),
                    IdentError,
                >(e),
            },
    {
        match parse_html_ident(tokens, pos, true) {
            Ok((text, end)) => Ok((HtmlIdent(text), end)),
            Err(e) => Err(e),
        }
    }
}

} // verus!
