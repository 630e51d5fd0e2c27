//! The client code of a loop in a view: how the components that each pass of the
//! loop rendered are handed to the bindings, and how a loop over a store follows
//! the store's pushes and pops.

use vstd::prelude::*;
use crate::macros::{id_tv, p_tv, push_id, push_p};
use crate::html::client::{
    blocks_view, closure, closure_tokens, code_blocks, listen, listen_tokens, strings_view,
    unit_token, unit_tv,
};
use crate::view::parse::element::attributes::{entries_view, expr_list_view, Attributes};
use crate::view::parse::element::children::ReactiveStore;
use crate::tokens::{
    all_tokens_view, append_tokens, group, path_sep, push_path_sep, push_token, Delimiter, Expr,
    Spacing, TokenTree, TokenView,
};
use crate::view::generate::server::{decimal, push_decimal, u64_literal};
use crate::view::parse::grammar::{
    component_view, qitem_view, qitems_view, Children, Component, ComponentView, Element, ForLoop, Items,
    ForLoopIterable, Item, QChildrenView, QItemView,
};

verus! {

/// The components that an item renders, in order: a component itself; the
/// components of an element's items; none for an expression, a store or a loop.
pub open spec fn components_of(i: QItemView) -> Seq<ComponentView>
    decreases i,
{
    match i {
        QItemView::Component(c) => seq![c],
        QItemView::Element(e) => match e.children {
            QChildrenView::Items(items) => {
                proof {
                    assert(decreases_to!(i => e));
                    assert(decreases_to!(e => e.children));
                    assert(decreases_to!(e.children => items));
                }
                components_of_items(items)
            },
            _ => Seq::empty(),
        },
        QItemView::Expression(_) => Seq::empty(),
    }
}

/// The components that a list of items renders, in order.
pub open spec fn components_of_items(items: Seq<QItemView>) -> Seq<ComponentView>
    decreases items,
{
    if items.len() == 0 {
        Seq::empty()
    } else {
        proof {
            assert(decreases_to!(items => items.subrange(0, items.len() - 1)));
            assert(decreases_to!(items => items[items.len() - 1]));
        }
        components_of_items(items.drop_last()) + components_of(items.last())
    }
}

/// A component as the loop code needs it: its name and its binding.
pub struct Rendered {
    pub name: Expr,
    pub binding: Option<String>,
}

/// The name and binding of a rendered component.
pub open spec fn rendered_view(r: Rendered) -> (Seq<TokenView>, Option<Seq<char>>) {
    (
        r.name@,
        match r.binding {
            Some(b) => Some(b@),
            None => None,
        },
    )
}

/// The names and bindings of a list of rendered components.
pub open spec fn rendered_list_view(s: Seq<Rendered>) -> Seq<(Seq<TokenView>, Option<Seq<char>>)> {
    s.map_values(|r: Rendered| rendered_view(r))
}

/// The names and bindings of a list of components.
pub open spec fn names_and_bindings(s: Seq<ComponentView>) -> Seq<(Seq<TokenView>, Option<Seq<char>>)> {
    s.map_values(|c: ComponentView| (c.name, c.binding))
}

/// Adds the components that `item` renders to `out`.
fn collect_components(item: &Item, out: &mut Vec<Rendered>)
    ensures
        rendered_list_view(final(out)@) == rendered_list_view(old(out)@) + names_and_bindings(
            components_of(qitem_view(*item)),
        ),
    decreases item, 1int,
{
    match item {
        Item::Component(c) => {
            let ghost before = out@;
            let binding = match &c.binding {
                Some(b) => Some(b.clone()),
                None => None,
            };
            out.push(Rendered { name: c.name.copy(), binding });
            assert(rendered_list_view(out@) =~= rendered_list_view(before) + names_and_bindings(
                seq![component_view(*c)],
            ));
        },
        Item::Element(e) => {
            proof {
                assert(decreases_to!(item => e));
            }
            collect_element_components(e, out);
        },
        Item::Expression(_) => {
            assert(rendered_list_view(out@) =~= rendered_list_view(out@) + names_and_bindings(
                Seq::empty(),
            ));
        },
    }
}

/// Adds the components that the element `e` renders to `out`.
fn collect_element_components(e: &Element, out: &mut Vec<Rendered>)
    ensures
        rendered_list_view(final(out)@) == rendered_list_view(old(out)@) + names_and_bindings(
            components_of(qitem_view(Item::Element(*e))),
        ),
    decreases e, 0int,
{
    let ghost start = rendered_list_view(out@);
    match &e.children {
        Children::Items(items) => {
            proof {
                assert(decreases_to!(e => e.children));
                assert(decreases_to!(e.children => items));
                assert(decreases_to!(items => items.items));
            }
            let v = &items.items;
            let mut i: usize = 0;
            assert(names_and_bindings(components_of_items(qitems_view(*v, 0))) =~= Seq::<
                (Seq<TokenView>, Option<Seq<char>>),
            >::empty());
            while i < v.len()
                invariant
                    decreases_to!(*e => *v),
                    i <= v@.len(),
                    rendered_list_view(out@) == start + names_and_bindings(
                        components_of_items(qitems_view(*v, i as int)),
                    ),
                decreases v@.len() - i,
            {
                proof {
                    assert(decreases_to!(v => v@));
                    assert(decreases_to!(v@ => v@[i as int]));
                }
                collect_components(&v[i], out);
                assert(qitems_view(*v, i + 1).drop_last() =~= qitems_view(*v, i as int));
                assert(names_and_bindings(components_of_items(qitems_view(*v, i + 1))) =~= names_and_bindings(
                    components_of_items(qitems_view(*v, i as int)),
                ) + names_and_bindings(components_of(qitem_view(v@[i as int]))));
                i = i + 1;
            }
        },
        _ => {
            assert(rendered_list_view(out@) =~= start + names_and_bindings(Seq::empty()));
        },
    }
}

/// The names and bindings of the components rendered by one pass of a loop.
pub type Components = Seq<(Seq<TokenView>, Option<Seq<char>>)>;

/// The tokens of `internal.<j>`.
pub open spec fn internal_field(j: nat) -> Seq<TokenView> {
    seq![id_tv("internal"@), p_tv('.'), TokenView::Literal(decimal(j))]
}

/// The statement that hands the `j`th list of rendered components to the binding
/// `b`: `b = std::rc::Rc::new(std::cell::RefCell::new(internal.<j>));` in a loop over
/// a store, `b = internal.<j>;` otherwise.
pub open spec fn binding_stmt(reactive: bool, j: nat, b: Seq<char>) -> Seq<TokenView> {
    if reactive {
        seq![id_tv(b), p_tv('='), id_tv("std"@)] + path_sep() + seq![id_tv("rc"@)] + path_sep() + seq![
            id_tv("Rc"@),
        ] + path_sep() + seq![
            id_tv("new"@),
            TokenView::Group(
                Delimiter::Parenthesis,
                seq![id_tv("std"@)] + path_sep() + seq![id_tv("cell"@)] + path_sep() + seq![
                    id_tv("RefCell"@),
                ] + path_sep() + seq![
                    id_tv("new"@),
                    TokenView::Group(Delimiter::Parenthesis, internal_field(j)),
                ],
            ),
            p_tv(';'),
        ]
    } else {
        seq![id_tv(b), p_tv('=')] + internal_field(j) + seq![p_tv(';')]
    }
}

/// One statement for each component that has a binding, in order.
pub open spec fn binding_stmts(reactive: bool, comps: Components) -> Seq<TokenView>
    decreases comps.len(),
{
    if comps.len() == 0 {
        Seq::empty()
    } else {
        binding_stmts(reactive, comps.drop_last()) + match comps.last().1 {
            Some(b) => binding_stmt(reactive, (comps.len() - 1) as nat, b),
            None => Seq::empty(),
        }
    }
}

/// The bindings of the components, in order.
pub open spec fn bindings_of(comps: Components) -> Seq<Seq<char>>
    decreases comps.len(),
{
    if comps.len() == 0 {
        Seq::empty()
    } else {
        bindings_of(comps.drop_last()) + match comps.last().1 {
            Some(b) => seq![b],
            None => Seq::empty(),
        }
    }
}

/// `Vec<name>,` for each component.
pub open spec fn vec_types(comps: Components) -> Seq<TokenView>
    decreases comps.len(),
{
    if comps.len() == 0 {
        Seq::empty()
    } else {
        vec_types(comps.drop_last()) + seq![id_tv("Vec"@), p_tv('<')] + comps.last().0 + seq![
            p_tv('>'),
            p_tv(','),
        ]
    }
}

/// `Vec::new(),` `n` times.
pub open spec fn new_vecs(n: nat) -> Seq<TokenView>
    decreases n,
{
    if n == 0 {
        Seq::empty()
    } else {
        new_vecs((n - 1) as nat) + seq![id_tv("Vec"@)] + path_sep() + seq![
            id_tv("new"@),
            unit_tv(),
            p_tv(','),
        ]
    }
}

/// The block that moves the `j`th component of a pass into its list:
/// `{ let child = components.<j>; internal.<j>.push(child.render().component); }`.
pub open spec fn child_block(j: nat) -> TokenView {
    TokenView::Group(
        Delimiter::Brace,
        seq![
            id_tv("let"@),
            id_tv("child"@),
            p_tv('='),
            id_tv("components"@),
            p_tv('.'),
            TokenView::Literal(decimal(j)),
            p_tv(';'),
        ] + internal_field(j) + seq![
            p_tv('.'),
            id_tv("push"@),
            TokenView::Group(
                Delimiter::Parenthesis,
                seq![id_tv("child"@), p_tv('.'), id_tv("render"@), unit_tv(), p_tv('.'), id_tv("component"@)],
            ),
            p_tv(';'),
        ],
    )
}

/// The blocks for components `0` to `n - 1`.
pub open spec fn child_blocks(n: nat) -> Seq<TokenView>
    decreases n,
{
    if n == 0 {
        Seq::empty()
    } else {
        child_blocks((n - 1) as nat).push(child_block((n - 1) as nat))
    }
}

/// The code that gathers, over the passes of the loop whose index among the loops
/// is `index`, the components of each kind into one list, and hands each list to
/// its binding: `{ let mut internal: (<vec types>) = (<new vecs>);
/// for components in for_loop_components.<index> { <child blocks> }
/// <binding statements>; }`.
pub open spec fn spec_binding_code(reactive: bool, comps: Components, index: nat) -> Seq<TokenView> {
    seq![
        TokenView::Group(
            Delimiter::Brace,
            seq![
                id_tv("let"@),
                id_tv("mut"@),
                id_tv("internal"@),
                p_tv(':'),
                TokenView::Group(Delimiter::Parenthesis, vec_types(comps)),
                p_tv('='),
                TokenView::Group(Delimiter::Parenthesis, new_vecs(comps.len())),
                p_tv(';'),
                id_tv("for"@),
                id_tv("components"@),
                id_tv("in"@),
                id_tv("for_loop_components"@),
                p_tv('.'),
                TokenView::Literal(decimal(index)),
                TokenView::Group(Delimiter::Brace, child_blocks(comps.len())),
            ] + binding_stmts(reactive, comps) + seq![p_tv(';')],
        ),
    ]
}

/// The literal of `j`, unsuffixed.
fn index_literal(j: usize) -> (t: TokenTree)
    ensures
        crate::tokens::token_view(t) == TokenView::Literal(decimal(j as nat)),
{
    let mut text = String::new();
    push_decimal(&mut text, j as u64);
    TokenTree::Literal(text)
}

/// `internal.<j>`
fn push_internal_field(v: &mut Vec<TokenTree>, j: usize)
    ensures
        all_tokens_view(*final(v)) == all_tokens_view(*old(v)) + internal_field(j as nat),
{
    let ghost start = all_tokens_view(*v);
    push_id(v, "internal");
    push_p(v, '.');
    push_token(v, index_literal(j));
    assert(all_tokens_view(*v) =~= start + internal_field(j as nat));
}

/// The statement of `binding_stmt`.
fn push_binding_stmt(v: &mut Vec<TokenTree>, reactive: bool, j: usize, b: &str)
    ensures
        all_tokens_view(*final(v)) == all_tokens_view(*old(v)) + binding_stmt(reactive, j as nat, b@),
{
    let ghost start = all_tokens_view(*v);
    if reactive {
        let mut field: Vec<TokenTree> = Vec::new();
        push_internal_field(&mut field, j);
        assert(all_tokens_view(field) =~= internal_field(j as nat));
        let mut cell: Vec<TokenTree> = Vec::new();
        push_id(&mut cell, "std");
        push_path_sep(&mut cell);
        push_id(&mut cell, "cell");
        push_path_sep(&mut cell);
        push_id(&mut cell, "RefCell");
        push_path_sep(&mut cell);
        push_id(&mut cell, "new");
        push_token(&mut cell, group(Delimiter::Parenthesis, field));
        assert(all_tokens_view(cell) =~= seq![id_tv("std"@)] + path_sep() + seq![id_tv("cell"@)]
            + path_sep() + seq![id_tv("RefCell"@)] + path_sep() + seq![
            id_tv("new"@),
            TokenView::Group(Delimiter::Parenthesis, internal_field(j as nat)),
        ]);
        push_id(v, b);
        push_p(v, '=');
        push_id(v, "std");
        push_path_sep(v);
        push_id(v, "rc");
        push_path_sep(v);
        push_id(v, "Rc");
        push_path_sep(v);
        push_id(v, "new");
        push_token(v, group(Delimiter::Parenthesis, cell));
        push_p(v, ';');
    } else {
        push_id(v, b);
        push_p(v, '=');
        push_internal_field(v, j);
        push_p(v, ';');
    }
    assert(all_tokens_view(*v) =~= start + binding_stmt(reactive, j as nat, b@));
}

/// The block of `child_block(j)`.
fn child_block_token(j: usize) -> (t: TokenTree)
    ensures
        crate::tokens::token_view(t) == child_block(j as nat),
{
    let mut call: Vec<TokenTree> = Vec::new();
    push_id(&mut call, "child");
    push_p(&mut call, '.');
    push_id(&mut call, "render");
    push_token(&mut call, unit_token());
    push_p(&mut call, '.');
    push_id(&mut call, "component");
    assert(all_tokens_view(call) =~= seq![
        id_tv("child"@),
        p_tv('.'),
        id_tv("render"@),
        unit_tv(),
        p_tv('.'),
        id_tv("component"@),
    ]);
    let ghost call_v = all_tokens_view(call);
    let mut b: Vec<TokenTree> = Vec::new();
    push_id(&mut b, "let");
    push_id(&mut b, "child");
    push_p(&mut b, '=');
    push_id(&mut b, "components");
    push_p(&mut b, '.');
    push_token(&mut b, index_literal(j));
    push_p(&mut b, ';');
    push_internal_field(&mut b, j);
    push_p(&mut b, '.');
    push_id(&mut b, "push");
    push_token(&mut b, group(Delimiter::Parenthesis, call));
    push_p(&mut b, ';');
    let ghost inner = all_tokens_view(b);
    assert(inner =~= seq![
        id_tv("let"@),
        id_tv("child"@),
        p_tv('='),
        id_tv("components"@),
        p_tv('.'),
        TokenView::Literal(decimal(j as nat)),
        p_tv(';'),
    ] + internal_field(j as nat) + seq![
        p_tv('.'),
        id_tv("push"@),
        TokenView::Group(Delimiter::Parenthesis, call_v),
        p_tv(';'),
    ]);
    group(Delimiter::Brace, b)
}

impl ForLoop {
    /// Whether the loop goes over a store.
    pub fn is_reactive(&self) -> (r: bool)
        ensures
            r == (self.iterable is Reactive),
    {
        match self.iterable {
            ForLoopIterable::Reactive(_) => true,
            ForLoopIterable::Static(_) => false,
        }
    }

    /// The code that hands the components that the loop's passes rendered to their
    /// bindings, the loop being the `index`th of its view; the loop keeps the
    /// bindings of the components of its item, in order.
    pub fn binding_code(&mut self, index: usize) -> (r: Vec<TokenTree>)
        ensures
            all_tokens_view(r) == spec_binding_code(
                old(self).iterable is Reactive,
                names_and_bindings(components_of(qitem_view(*old(self).item))),
                index as nat,
            ),
            strings_view(final(self).bindings@) == bindings_of(
                names_and_bindings(components_of(qitem_view(*old(self).item))),
            ),
            final(self).pattern == old(self).pattern,
            final(self).iterable == old(self).iterable,
            final(self).item == old(self).item,
            final(self).id == old(self).id,
    {
        let reactive = self.is_reactive();
        let mut comps: Vec<Rendered> = Vec::new();
        collect_components(&self.item, &mut comps);
        let ghost all = names_and_bindings(components_of(qitem_view(*self.item)));
        assert(rendered_list_view(comps@) =~= all);
        let n = comps.len();
        let mut types: Vec<TokenTree> = Vec::new();
        let mut vecs: Vec<TokenTree> = Vec::new();
        let mut blocks: Vec<TokenTree> = Vec::new();
        let mut stmts: Vec<TokenTree> = Vec::new();
        let mut bindings: Vec<String> = Vec::new();
        let mut j: usize = 0;
        assert(strings_view(bindings@) =~= bindings_of(all.take(0)));
        while j < n
            invariant
                n == comps@.len(),
                all == rendered_list_view(comps@),
                j <= n,
                reactive == (self.iterable is Reactive),
                all_tokens_view(types) == vec_types(all.take(j as int)),
                all_tokens_view(vecs) == new_vecs(j as nat),
                all_tokens_view(blocks) == child_blocks(j as nat),
                all_tokens_view(stmts) == binding_stmts(reactive, all.take(j as int)),
                strings_view(bindings@) == bindings_of(all.take(j as int)),
            decreases n - j,
        {
            let ghost taken = all.take(j + 1);
            assert(taken.drop_last() =~= all.take(j as int));
            assert(taken.last() == rendered_view(comps@[j as int]));
            push_id(&mut types, "Vec");
            push_p(&mut types, '<');
            append_tokens(&mut types, &comps[j].name.tokens);
            push_p(&mut types, '>');
            push_p(&mut types, ',');
            assert(all_tokens_view(types) =~= vec_types(taken));
            push_id(&mut vecs, "Vec");
            push_path_sep(&mut vecs);
            push_id(&mut vecs, "new");
            push_token(&mut vecs, unit_token());
            push_p(&mut vecs, ',');
            assert(all_tokens_view(vecs) =~= new_vecs((j + 1) as nat));
            push_token(&mut blocks, child_block_token(j));
            match &comps[j].binding {
                Some(b) => {
                    push_binding_stmt(&mut stmts, reactive, j, b.as_str());
                    let ghost before = bindings@;
                    bindings.push(b.clone());
                    assert(strings_view(bindings@) =~= strings_view(before) + seq![b@]);
                },
                None => {
                    assert(all_tokens_view(stmts) =~= binding_stmts(reactive, all.take(j as int))
                        + Seq::<TokenView>::empty());
                    assert(strings_view(bindings@) =~= bindings_of(all.take(j as int)) + Seq::<
                        Seq<char>,
                    >::empty());
                },
            }
            j = j + 1;
        }
        assert(all.take(n as int) =~= all);
        self.bindings = bindings;
        let ghost types_v = all_tokens_view(types);
        let ghost vecs_v = all_tokens_view(vecs);
        let ghost blocks_v = all_tokens_view(blocks);
        let mut body: Vec<TokenTree> = Vec::new();
        push_id(&mut body, "let");
        push_id(&mut body, "mut");
        push_id(&mut body, "internal");
        push_p(&mut body, ':');
        push_token(&mut body, group(Delimiter::Parenthesis, types));
        push_p(&mut body, '=');
        push_token(&mut body, group(Delimiter::Parenthesis, vecs));
        push_p(&mut body, ';');
        push_id(&mut body, "for");
        push_id(&mut body, "components");
        push_id(&mut body, "in");
        push_id(&mut body, "for_loop_components");
        push_p(&mut body, '.');
        push_token(&mut body, index_literal(index));
        push_token(&mut body, group(Delimiter::Brace, blocks));
        append_tokens(&mut body, &stmts);
        push_p(&mut body, ';');
        assert(all.len() == n);
        let ghost body_v = all_tokens_view(body);
        assert(body_v =~= seq![
            id_tv("let"@),
            id_tv("mut"@),
            id_tv("internal"@),
            p_tv(':'),
            TokenView::Group(Delimiter::Parenthesis, vec_types(all)),
            p_tv('='),
            TokenView::Group(Delimiter::Parenthesis, new_vecs(all.len())),
            p_tv(';'),
            id_tv("for"@),
            id_tv("components"@),
            id_tv("in"@),
            id_tv("for_loop_components"@),
            p_tv('.'),
            TokenView::Literal(decimal(index as nat)),
            TokenView::Group(Delimiter::Brace, child_blocks(all.len())),
        ] + binding_stmts(reactive, all) + seq![p_tv(';')]);
        let mut v: Vec<TokenTree> = Vec::new();
        push_token(&mut v, group(Delimiter::Brace, body));
        assert(all_tokens_view(v) =~= spec_binding_code(reactive, all, index as nat));
        v
    }
}

/// The tokens of `=>`.
pub open spec fn fat_arrow() -> Seq<TokenView> {
    seq![TokenView::Punct('=', Spacing::Joint), p_tv('>')]
}

/// The literal of the loop id `id`: its decimal digits followed by `u64`.
pub open spec fn id_literal(id: u64) -> TokenView {
    TokenView::Literal(decimal(id as nat) + "u64"@)
}

/// The tokens of `quux::dom::get_reactive_for_loop_element(*id, <loop id>, index).remove();`.
pub open spec fn remove_element_tokens(id: u64) -> Seq<TokenView> {
    seq![id_tv("quux"@)] + path_sep() + seq![id_tv("dom"@)] + path_sep() + seq![
        id_tv("get_reactive_for_loop_element"@),
        TokenView::Group(
            Delimiter::Parenthesis,
            seq![p_tv('*'), id_tv("id"@), p_tv(','), id_literal(id), p_tv(','), id_tv("index"@)],
        ),
        p_tv('.'),
        id_tv("remove"@),
        unit_tv(),
        p_tv(';'),
    ]
}

/// `<b>.borrow_mut().pop()` for each binding, one right after the other.
pub open spec fn pop_calls(bindings: Seq<Seq<char>>) -> Seq<TokenView>
    decreases bindings.len(),
{
    if bindings.len() == 0 {
        Seq::empty()
    } else {
        pop_calls(bindings.drop_last()) + seq![
            id_tv(bindings.last()),
            p_tv('.'),
            id_tv("borrow_mut"@),
            unit_tv(),
            p_tv('.'),
            id_tv("pop"@),
            unit_tv(),
        ]
    }
}

/// `<b>.borrow_mut().push(component.clone())` for each binding, one right after the
/// other.
pub open spec fn push_calls(bindings: Seq<Seq<char>>) -> Seq<TokenView>
    decreases bindings.len(),
{
    if bindings.len() == 0 {
        Seq::empty()
    } else {
        push_calls(bindings.drop_last()) + seq![
            id_tv(bindings.last()),
            p_tv('.'),
            id_tv("borrow_mut"@),
            unit_tv(),
            p_tv('.'),
            id_tv("push"@),
            TokenView::Group(
                Delimiter::Parenthesis,
                seq![id_tv("component"@), p_tv('.'), id_tv("clone"@), unit_tv()],
            ),
        ]
    }
}

/// `let <b> = std::rc::Rc::clone(&<b>);` for each binding.
pub open spec fn clone_bindings(bindings: Seq<Seq<char>>) -> Seq<TokenView>
    decreases bindings.len(),
{
    if bindings.len() == 0 {
        Seq::empty()
    } else {
        clone_bindings(bindings.drop_last()) + seq![id_tv("let"@), id_tv(bindings.last()), p_tv('='), id_tv("std"@)]
            + path_sep() + seq![id_tv("rc"@)] + path_sep() + seq![id_tv("Rc"@)] + path_sep() + seq![
            id_tv("clone"@),
            TokenView::Group(Delimiter::Parenthesis, seq![p_tv('&'), id_tv(bindings.last())]),
            p_tv(';'),
        ]
    }
}

/// The code run when an item is popped from the store of loop `id`: the element of
/// the item is removed from the page, and each binding pops its last component.
pub open spec fn spec_pop_code(id: u64, bindings: Seq<Seq<char>>) -> TokenView {
    TokenView::Group(
        Delimiter::Brace,
        remove_element_tokens(id) + pop_calls(bindings) + seq![p_tv(';')],
    )
}

/// The code run when an item is pushed onto the store of loop `id`: the element is
/// removed from the page, and each binding pushes the new component.
pub open spec fn spec_push_code(id: u64, bindings: Seq<Seq<char>>) -> TokenView {
    TokenView::Group(
        Delimiter::Brace,
        remove_element_tokens(id) + push_calls(bindings) + seq![p_tv(';')],
    )
}

/// The path `quux::store::list::Event::<variant>`.
pub open spec fn event_path(variant: Seq<char>) -> Seq<TokenView> {
    seq![id_tv("quux"@)] + path_sep() + seq![id_tv("store"@)] + path_sep() + seq![id_tv("list"@)]
        + path_sep() + seq![id_tv("Event"@)] + path_sep() + seq![id_tv(variant)]
}

/// The code that follows the store a loop goes over: `quux::store::List::on_change(
/// &<store>, { let id = Rc::clone(&id); <clone bindings>; move |event| match event {
/// quux::store::list::Event::Push(_) => <push code>, quux::store::list::Event::Pop(_,
/// index) => <pop code>, } })`.
pub open spec fn spec_list_store_code(store: Seq<TokenView>, id: u64, bindings: Seq<Seq<char>>) -> Seq<
    TokenView,
> {
    let arms = event_path("Push"@) + seq![TokenView::Group(Delimiter::Parenthesis, seq![id_tv("_"@)])]
        + fat_arrow() + seq![spec_push_code(id, bindings), p_tv(',')] + event_path("Pop"@) + seq![
        TokenView::Group(Delimiter::Parenthesis, seq![id_tv("_"@), p_tv(','), id_tv("index"@)]),
    ] + fat_arrow() + seq![spec_pop_code(id, bindings), p_tv(',')];
    let block = seq![id_tv("let"@), id_tv("id"@), p_tv('='), id_tv("Rc"@)] + path_sep() + seq![
        id_tv("clone"@),
        TokenView::Group(Delimiter::Parenthesis, seq![p_tv('&'), id_tv("id"@)]),
        p_tv(';'),
    ] + clone_bindings(bindings) + seq![
        p_tv(';'),
        id_tv("move"@),
        p_tv('|'),
        id_tv("event"@),
        p_tv('|'),
        id_tv("match"@),
        id_tv("event"@),
        TokenView::Group(Delimiter::Brace, arms),
    ];
    seq![id_tv("quux"@)] + path_sep() + seq![id_tv("store"@)] + path_sep() + seq![id_tv("List"@)]
        + path_sep() + seq![
        id_tv("on_change"@),
        TokenView::Group(
            Delimiter::Parenthesis,
            seq![p_tv('&')] + store + seq![p_tv(','), TokenView::Group(Delimiter::Brace, block)],
        ),
    ]
}

/// `=>`
pub(crate) fn push_fat_arrow(v: &mut Vec<TokenTree>)
    ensures
        all_tokens_view(*final(v)) == all_tokens_view(*old(v)) + fat_arrow(),
{
    let ghost start = all_tokens_view(*v);
    push_token(v, TokenTree::Punct('=', Spacing::Joint));
    push_p(v, '>');
    assert(all_tokens_view(*v) =~= start + fat_arrow());
}

/// The tokens of `remove_element_tokens(id)`.
fn push_remove_element(v: &mut Vec<TokenTree>, id: u64)
    ensures
        all_tokens_view(*final(v)) == all_tokens_view(*old(v)) + remove_element_tokens(id),
{
    let ghost start = all_tokens_view(*v);
    let mut args: Vec<TokenTree> = Vec::new();
    push_p(&mut args, '*');
    push_id(&mut args, "id");
    push_p(&mut args, ',');
    push_token(&mut args, TokenTree::Literal(u64_literal(id)));
    push_p(&mut args, ',');
    push_id(&mut args, "index");
    assert(all_tokens_view(args) =~= seq![
        p_tv('*'),
        id_tv("id"@),
        p_tv(','),
        id_literal(id),
        p_tv(','),
        id_tv("index"@),
    ]);
    push_id(v, "quux");
    push_path_sep(v);
    push_id(v, "dom");
    push_path_sep(v);
    push_id(v, "get_reactive_for_loop_element");
    push_token(v, group(Delimiter::Parenthesis, args));
    push_p(v, '.');
    push_id(v, "remove");
    push_token(v, unit_token());
    push_p(v, ';');
    assert(all_tokens_view(*v) =~= start + remove_element_tokens(id));
}

/// The path of `event_path(variant)`.
fn push_event_path(v: &mut Vec<TokenTree>, variant: &str)
    ensures
        all_tokens_view(*final(v)) == all_tokens_view(*old(v)) + event_path(variant@),
{
    let ghost start = all_tokens_view(*v);
    push_id(v, "quux");
    push_path_sep(v);
    push_id(v, "store");
    push_path_sep(v);
    push_id(v, "list");
    push_path_sep(v);
    push_id(v, "Event");
    push_path_sep(v);
    push_id(v, variant);
    assert(all_tokens_view(*v) =~= start + event_path(variant@));
}

impl ForLoop {
    /// The code run when an item is popped from the store the loop goes over.
    pub fn pop_code(&self) -> (r: Vec<TokenTree>)
        ensures
            all_tokens_view(r) == seq![spec_pop_code(self.id, strings_view(self.bindings@))],
    {
        let ghost all = strings_view(self.bindings@);
        let mut body: Vec<TokenTree> = Vec::new();
        push_remove_element(&mut body, self.id);
        assert(all_tokens_view(body) =~= remove_element_tokens(self.id));
        let ghost head = all_tokens_view(body);
        let mut i: usize = 0;
        while i < self.bindings.len()
            invariant
                all == strings_view(self.bindings@),
                i <= self.bindings@.len(),
                all_tokens_view(body) == head + pop_calls(all.take(i as int)),
            decreases self.bindings@.len() - i,
        {
            push_id(&mut body, self.bindings[i].as_str());
            push_p(&mut body, '.');
            push_id(&mut body, "borrow_mut");
            push_token(&mut body, unit_token());
            push_p(&mut body, '.');
            push_id(&mut body, "pop");
            push_token(&mut body, unit_token());
            assert(all.take(i + 1).drop_last() =~= all.take(i as int));
            assert(all_tokens_view(body) =~= head + pop_calls(all.take(i + 1)));
            i = i + 1;
        }
        assert(all.take(i as int) =~= all);
        push_p(&mut body, ';');
        assert(all_tokens_view(body) =~= remove_element_tokens(self.id) + pop_calls(all) + seq![p_tv(';')]);
        let mut v: Vec<TokenTree> = Vec::new();
        push_token(&mut v, group(Delimiter::Brace, body));
        assert(all_tokens_view(v) =~= seq![spec_pop_code(self.id, all)]);
        v
    }

    /// The code run when an item is pushed onto the store the loop goes over.
    pub fn push_code(&self) -> (r: Vec<TokenTree>)
        ensures
            all_tokens_view(r) == seq![spec_push_code(self.id, strings_view(self.bindings@))],
    {
        let ghost all = strings_view(self.bindings@);
        let mut body: Vec<TokenTree> = Vec::new();
        push_remove_element(&mut body, self.id);
        assert(all_tokens_view(body) =~= remove_element_tokens(self.id));
        let ghost head = all_tokens_view(body);
        let mut i: usize = 0;
        while i < self.bindings.len()
            invariant
                all == strings_view(self.bindings@),
                i <= self.bindings@.len(),
                all_tokens_view(body) == head + push_calls(all.take(i as int)),
            decreases self.bindings@.len() - i,
        {
            let mut arg: Vec<TokenTree> = Vec::new();
            push_id(&mut arg, "component");
            push_p(&mut arg, '.');
            push_id(&mut arg, "clone");
            push_token(&mut arg, unit_token());
            assert(all_tokens_view(arg) =~= seq![
                id_tv("component"@),
                p_tv('.'),
                id_tv("clone"@),
                unit_tv(),
            ]);
            push_id(&mut body, self.bindings[i].as_str());
            push_p(&mut body, '.');
            push_id(&mut body, "borrow_mut");
            push_token(&mut body, unit_token());
            push_p(&mut body, '.');
            push_id(&mut body, "push");
            push_token(&mut body, group(Delimiter::Parenthesis, arg));
            assert(all.take(i + 1).drop_last() =~= all.take(i as int));
            assert(all_tokens_view(body) =~= head + push_calls(all.take(i + 1)));
            i = i + 1;
        }
        assert(all.take(i as int) =~= all);
        push_p(&mut body, ';');
        assert(all_tokens_view(body) =~= remove_element_tokens(self.id) + push_calls(all) + seq![p_tv(';')]);
        let mut v: Vec<TokenTree> = Vec::new();
        push_token(&mut v, group(Delimiter::Brace, body));
        assert(all_tokens_view(v) =~= seq![spec_push_code(self.id, all)]);
        v
    }

    /// The code that follows the store the loop goes over; none when the loop goes
    /// over an expression.
    pub fn list_store_code(&self) -> (r: Vec<TokenTree>)
        requires
            self.iterable is Reactive ==> !(*self.item is Expression),
        ensures
            match self.iterable {
                ForLoopIterable::Reactive(store) => all_tokens_view(r) == spec_list_store_code(
                    store@,
                    self.id,
                    strings_view(self.bindings@),
                ),
                ForLoopIterable::Static(_) => r@.len() == 0,
            },
    {
        let store = match &self.iterable {
            ForLoopIterable::Reactive(store) => store,
            ForLoopIterable::Static(_) => {
                return Vec::new();
            },
        };
        let ghost all = strings_view(self.bindings@);
        let mut clones: Vec<TokenTree> = Vec::new();
        let mut i: usize = 0;
        while i < self.bindings.len()
            invariant
                all == strings_view(self.bindings@),
                i <= self.bindings@.len(),
                all_tokens_view(clones) == clone_bindings(all.take(i as int)),
            decreases self.bindings@.len() - i,
        {
            let name = self.bindings[i].as_str();
            let mut arg: Vec<TokenTree> = Vec::new();
            push_p(&mut arg, '&');
            push_id(&mut arg, name);
            assert(all_tokens_view(arg) =~= seq![p_tv('&'), id_tv(name@)]);
            let ghost before = all_tokens_view(clones);
            push_id(&mut clones, "let");
            push_id(&mut clones, name);
            push_p(&mut clones, '=');
            push_id(&mut clones, "std");
            push_path_sep(&mut clones);
            push_id(&mut clones, "rc");
            push_path_sep(&mut clones);
            push_id(&mut clones, "Rc");
            push_path_sep(&mut clones);
            push_id(&mut clones, "clone");
            push_token(&mut clones, group(Delimiter::Parenthesis, arg));
            push_p(&mut clones, ';');
            assert(all.take(i + 1).drop_last() =~= all.take(i as int));
            assert(all_tokens_view(clones) =~= clone_bindings(all.take(i + 1)));
            i = i + 1;
        }
        assert(all.take(i as int) =~= all);
        let mut push_arg: Vec<TokenTree> = Vec::new();
        push_id(&mut push_arg, "_");
        assert(all_tokens_view(push_arg) =~= seq![id_tv("_"@)]);
        let mut pop_arg: Vec<TokenTree> = Vec::new();
        push_id(&mut pop_arg, "_");
        push_p(&mut pop_arg, ',');
        push_id(&mut pop_arg, "index");
        assert(all_tokens_view(pop_arg) =~= seq![id_tv("_"@), p_tv(','), id_tv("index"@)]);
        let mut arms: Vec<TokenTree> = Vec::new();
        push_event_path(&mut arms, "Push");
        push_token(&mut arms, group(Delimiter::Parenthesis, push_arg));
        push_fat_arrow(&mut arms);
        append_tokens(&mut arms, &self.push_code());
        push_p(&mut arms, ',');
        push_event_path(&mut arms, "Pop");
        push_token(&mut arms, group(Delimiter::Parenthesis, pop_arg));
        push_fat_arrow(&mut arms);
        append_tokens(&mut arms, &self.pop_code());
        push_p(&mut arms, ',');
        let ghost arms_v = all_tokens_view(arms);
        let mut id_arg: Vec<TokenTree> = Vec::new();
        push_p(&mut id_arg, '&');
        push_id(&mut id_arg, "id");
        assert(all_tokens_view(id_arg) =~= seq![p_tv('&'), id_tv("id"@)]);
        let mut block: Vec<TokenTree> = Vec::new();
        push_id(&mut block, "let");
        push_id(&mut block, "id");
        push_p(&mut block, '=');
        push_id(&mut block, "Rc");
        push_path_sep(&mut block);
        push_id(&mut block, "clone");
        push_token(&mut block, group(Delimiter::Parenthesis, id_arg));
        push_p(&mut block, ';');
        append_tokens(&mut block, &clones);
        push_p(&mut block, ';');
        push_id(&mut block, "move");
        push_p(&mut block, '|');
        push_id(&mut block, "event");
        push_p(&mut block, '|');
        push_id(&mut block, "match");
        push_id(&mut block, "event");
        push_token(&mut block, group(Delimiter::Brace, arms));
        let ghost block_v = all_tokens_view(block);
        let mut args: Vec<TokenTree> = Vec::new();
        push_p(&mut args, '&');
        append_tokens(&mut args, &store.tokens);
        push_p(&mut args, ',');
        push_token(&mut args, group(Delimiter::Brace, block));
        let ghost args_v = all_tokens_view(args);
        let mut v: Vec<TokenTree> = Vec::new();
        push_id(&mut v, "quux");
        push_path_sep(&mut v);
        push_id(&mut v, "store");
        push_path_sep(&mut v);
        push_id(&mut v, "List");
        push_path_sep(&mut v);
        push_id(&mut v, "on_change");
        push_token(&mut v, group(Delimiter::Parenthesis, args));
        proof {
            let arms_s = event_path("Push"@) + seq![
                TokenView::Group(Delimiter::Parenthesis, seq![id_tv("_"@)]),
            ] + fat_arrow() + seq![spec_push_code(self.id, all), p_tv(',')] + event_path("Pop"@) + seq![
                TokenView::Group(Delimiter::Parenthesis, seq![id_tv("_"@), p_tv(','), id_tv("index"@)]),
            ] + fat_arrow() + seq![spec_pop_code(self.id, all), p_tv(',')];
            assert(arms_v =~= arms_s);
            assert(block_v =~= seq![id_tv("let"@), id_tv("id"@), p_tv('='), id_tv("Rc"@)] + path_sep() + seq![
                id_tv("clone"@),
                TokenView::Group(Delimiter::Parenthesis, seq![p_tv('&'), id_tv("id"@)]),
                p_tv(';'),
            ] + clone_bindings(all) + seq![
                p_tv(';'),
                id_tv("move"@),
                p_tv('|'),
                id_tv("event"@),
                p_tv('|'),
                id_tv("match"@),
                id_tv("event"@),
                TokenView::Group(Delimiter::Brace, arms_s),
            ]);
            assert(store.tokens@.len() >= 0);
            assert(all_tokens_view(store.tokens) == store@);
            assert(args_v =~= seq![p_tv('&')] + store@ + seq![
                p_tv(','),
                TokenView::Group(Delimiter::Brace, block_v),
            ]);
            assert(all_tokens_view(v) =~= spec_list_store_code(store@, self.id, all));
        }
        v
    }

    /// The client code of the loop, the `index`th of its view: the code of
    /// `binding_code`, `;`, the code of `list_store_code`, `;`.
    pub fn reactivity(&mut self, index: usize) -> (r: Vec<TokenTree>)
        requires
            old(self).iterable is Reactive ==> !(*old(self).item is Expression),
        ensures
            ({
                let comps = names_and_bindings(components_of(qitem_view(*old(self).item)));
                let follow = match old(self).iterable {
                    ForLoopIterable::Reactive(store) => spec_list_store_code(
                        store@,
                        old(self).id,
                        bindings_of(comps),
                    ),
                    ForLoopIterable::Static(_) => Seq::empty(),
                };
                all_tokens_view(r) == spec_binding_code(
                    old(self).iterable is Reactive,
                    comps,
                    index as nat,
                ) + seq![p_tv(';')] + follow + seq![p_tv(';')]
            }),
            strings_view(final(self).bindings@) == bindings_of(
                names_and_bindings(components_of(qitem_view(*old(self).item))),
            ),
    {
        let mut v = self.binding_code(index);
        push_p(&mut v, ';');
        let follow = self.list_store_code();
        append_tokens(&mut v, &follow);
        proof {
            if self.iterable is Static {
                assert(all_tokens_view(follow) =~= Seq::<TokenView>::empty());
            }
        }
        push_p(&mut v, ';');
        v
    }
}

/// What the client build needs of a part of a view: its components, the blocks of
/// code that keep the page in step, and its loops.
pub struct Data {
    pub components: Vec<Component>,
    /// Code to update the page on changes.
    pub reactivity: Vec<Vec<TokenTree>>,
    pub for_loops: Vec<ForLoop>,
}

/// The tokens of `let id = Rc::clone(&id);`.
pub open spec fn clone_id_tokens() -> Seq<TokenView> {
    seq![id_tv("let"@), id_tv("id"@), p_tv('='), id_tv("Rc"@)] + path_sep() + seq![
        id_tv("clone"@),
        TokenView::Group(Delimiter::Parenthesis, seq![p_tv('&'), id_tv("id"@)]),
        p_tv(';'),
    ]
}

/// The tokens of `quux::dom::get_reactive_element(*id, <element id>u64)`.
pub open spec fn element_lookup_tokens(element: u64) -> Seq<TokenView> {
    seq![id_tv("quux"@)] + path_sep() + seq![id_tv("dom"@)] + path_sep() + seq![
        id_tv("get_reactive_element"@),
        TokenView::Group(
            Delimiter::Parenthesis,
            seq![p_tv('*'), id_tv("id"@), p_tv(','), id_literal(element)],
        ),
    ]
}

/// The code that runs `callback` whenever the element `element` dispatches `event`.
pub open spec fn event_block(element: u64, event: Seq<char>, callback: Seq<TokenView>) -> Seq<TokenView> {
    clone_id_tokens() + closure_tokens(callback) + element_lookup_tokens(element) + listen_tokens(event)
}

/// One event block for each event, in order.
pub open spec fn event_blocks(element: u64, events: Seq<(Seq<char>, Seq<TokenView>)>) -> Seq<
    Seq<TokenView>,
> {
    events.map_values(|e: (Seq<char>, Seq<TokenView>)| event_block(element, e.0, e.1))
}

/// The tokens of `class_list.<method>(class_name).unwrap();`.
pub open spec fn class_call_tokens(method: Seq<char>) -> Seq<TokenView> {
    seq![
        id_tv("class_list"@),
        p_tv('.'),
        id_tv(method),
        TokenView::Group(Delimiter::Parenthesis, seq![id_tv("class_name"@)]),
        p_tv('.'),
        id_tv("unwrap"@),
        unit_tv(),
        p_tv(';'),
    ]
}

/// The code that keeps the class of a reactive class expression on the element
/// `element` in step with its store: `let (store, mapping, class_name) = <expression>;
/// let store = quux::store::Store::clone(store); let id = Rc::clone(&id);
/// let class_list = <element lookup>.class_list(); store.on_change(move |previous,
/// current| if mapping(std::clone::Clone::clone(current)) { <add> } else { <remove> })`.
pub open spec fn class_block(element: u64, expression: Seq<TokenView>) -> Seq<TokenView> {
    let condition = seq![
        id_tv("mapping"@),
        TokenView::Group(
            Delimiter::Parenthesis,
            seq![id_tv("std"@)] + path_sep() + seq![id_tv("clone"@)] + path_sep() + seq![
                id_tv("Clone"@),
            ] + path_sep() + seq![
                id_tv("clone"@),
                TokenView::Group(Delimiter::Parenthesis, seq![id_tv("current"@)]),
            ],
        ),
    ];
    let callback = seq![
        id_tv("move"@),
        p_tv('|'),
        id_tv("previous"@),
        p_tv(','),
        id_tv("current"@),
        p_tv('|'),
        id_tv("if"@),
    ] + condition + seq![
        TokenView::Group(Delimiter::Brace, class_call_tokens("add_1"@)),
        id_tv("else"@),
        TokenView::Group(Delimiter::Brace, class_call_tokens("remove_1"@)),
    ];
    seq![
        id_tv("let"@),
        TokenView::Group(
            Delimiter::Parenthesis,
            seq![id_tv("store"@), p_tv(','), id_tv("mapping"@), p_tv(','), id_tv("class_name"@)],
        ),
        p_tv('='),
    ] + expression + seq![p_tv(';'), id_tv("let"@), id_tv("store"@), p_tv('='), id_tv("quux"@)]
        + path_sep() + seq![id_tv("store"@)] + path_sep() + seq![id_tv("Store"@)] + path_sep() + seq![
        id_tv("clone"@),
        TokenView::Group(Delimiter::Parenthesis, seq![id_tv("store"@)]),
        p_tv(';'),
    ] + clone_id_tokens() + seq![id_tv("let"@), id_tv("class_list"@), p_tv('=')]
        + element_lookup_tokens(element) + seq![
        p_tv('.'),
        id_tv("class_list"@),
        unit_tv(),
        p_tv(';'),
        id_tv("store"@),
        p_tv('.'),
        id_tv("on_change"@),
        TokenView::Group(Delimiter::Parenthesis, callback),
    ]
}

/// One class block for each reactive class expression, in order.
pub open spec fn class_blocks(element: u64, classes: Seq<Seq<TokenView>>) -> Seq<Seq<TokenView>> {
    classes.map_values(|c: Seq<TokenView>| class_block(element, c))
}

/// `let id = Rc::clone(&id);`
fn push_clone_id(v: &mut Vec<TokenTree>)
    ensures
        all_tokens_view(*final(v)) == all_tokens_view(*old(v)) + clone_id_tokens(),
{
    let ghost start = all_tokens_view(*v);
    let mut arg: Vec<TokenTree> = Vec::new();
    push_p(&mut arg, '&');
    push_id(&mut arg, "id");
    assert(all_tokens_view(arg) =~= seq![p_tv('&'), id_tv("id"@)]);
    push_id(v, "let");
    push_id(v, "id");
    push_p(v, '=');
    push_id(v, "Rc");
    push_path_sep(v);
    push_id(v, "clone");
    push_token(v, group(Delimiter::Parenthesis, arg));
    push_p(v, ';');
    assert(all_tokens_view(*v) =~= start + clone_id_tokens());
}

/// `quux::dom::get_reactive_element(*id, <element id>u64)`
fn push_element_lookup(v: &mut Vec<TokenTree>, element: u64)
    ensures
        all_tokens_view(*final(v)) == all_tokens_view(*old(v)) + element_lookup_tokens(element),
{
    let ghost start = all_tokens_view(*v);
    let mut args: Vec<TokenTree> = Vec::new();
    push_p(&mut args, '*');
    push_id(&mut args, "id");
    push_p(&mut args, ',');
    push_token(&mut args, TokenTree::Literal(u64_literal(element)));
    assert(all_tokens_view(args) =~= seq![p_tv('*'), id_tv("id"@), p_tv(','), id_literal(element)]);
    push_id(v, "quux");
    push_path_sep(v);
    push_id(v, "dom");
    push_path_sep(v);
    push_id(v, "get_reactive_element");
    push_token(v, group(Delimiter::Parenthesis, args));
    assert(all_tokens_view(*v) =~= start + element_lookup_tokens(element));
}

/// `class_list.<method>(class_name).unwrap();`
fn class_call(method: &str) -> (v: Vec<TokenTree>)
    ensures
        all_tokens_view(v) == class_call_tokens(method@),
{
    let mut arg: Vec<TokenTree> = Vec::new();
    push_id(&mut arg, "class_name");
    assert(all_tokens_view(arg) =~= seq![id_tv("class_name"@)]);
    let mut v: Vec<TokenTree> = Vec::new();
    push_id(&mut v, "class_list");
    push_p(&mut v, '.');
    push_id(&mut v, method);
    push_token(&mut v, group(Delimiter::Parenthesis, arg));
    push_p(&mut v, '.');
    push_id(&mut v, "unwrap");
    push_token(&mut v, unit_token());
    push_p(&mut v, ';');
    assert(all_tokens_view(v) =~= class_call_tokens(method@));
    v
}

/// The code of `class_block(element, expression)`.
#[verifier::rlimit(40)]
fn class_block_code(element: u64, expression: &Expr) -> (v: Vec<TokenTree>)
    ensures
        all_tokens_view(v) == class_block(element, expression@),
{
    let mut current: Vec<TokenTree> = Vec::new();
    push_id(&mut current, "current");
    assert(all_tokens_view(current) =~= seq![id_tv("current"@)]);
    let mut cloned: Vec<TokenTree> = Vec::new();
    push_id(&mut cloned, "std");
    push_path_sep(&mut cloned);
    push_id(&mut cloned, "clone");
    push_path_sep(&mut cloned);
    push_id(&mut cloned, "Clone");
    push_path_sep(&mut cloned);
    push_id(&mut cloned, "clone");
    push_token(&mut cloned, group(Delimiter::Parenthesis, current));
    let ghost cloned_v = all_tokens_view(cloned);
    let add = class_call("add_1");
    let remove = class_call("remove_1");
    let mut callback: Vec<TokenTree> = Vec::new();
    push_id(&mut callback, "move");
    push_p(&mut callback, '|');
    push_id(&mut callback, "previous");
    push_p(&mut callback, ',');
    push_id(&mut callback, "current");
    push_p(&mut callback, '|');
    push_id(&mut callback, "if");
    push_id(&mut callback, "mapping");
    push_token(&mut callback, group(Delimiter::Parenthesis, cloned));
    push_token(&mut callback, group(Delimiter::Brace, add));
    push_id(&mut callback, "else");
    push_token(&mut callback, group(Delimiter::Brace, remove));
    let ghost callback_v = all_tokens_view(callback);
    let mut names: Vec<TokenTree> = Vec::new();
    push_id(&mut names, "store");
    push_p(&mut names, ',');
    push_id(&mut names, "mapping");
    push_p(&mut names, ',');
    push_id(&mut names, "class_name");
    let ghost names_v = all_tokens_view(names);
    let mut store: Vec<TokenTree> = Vec::new();
    push_id(&mut store, "store");
    assert(all_tokens_view(store) =~= seq![id_tv("store"@)]);
    let mut v: Vec<TokenTree> = Vec::new();
    push_id(&mut v, "let");
    push_token(&mut v, group(Delimiter::Parenthesis, names));
    push_p(&mut v, '=');
    append_tokens(&mut v, &expression.tokens);
    push_p(&mut v, ';');
    push_id(&mut v, "let");
    push_id(&mut v, "store");
    push_p(&mut v, '=');
    push_id(&mut v, "quux");
    push_path_sep(&mut v);
    push_id(&mut v, "store");
    push_path_sep(&mut v);
    push_id(&mut v, "Store");
    push_path_sep(&mut v);
    push_id(&mut v, "clone");
    push_token(&mut v, group(Delimiter::Parenthesis, store));
    push_p(&mut v, ';');
    push_clone_id(&mut v);
    push_id(&mut v, "let");
    push_id(&mut v, "class_list");
    push_p(&mut v, '=');
    push_element_lookup(&mut v, element);
    push_p(&mut v, '.');
    push_id(&mut v, "class_list");
    push_token(&mut v, unit_token());
    push_p(&mut v, ';');
    push_id(&mut v, "store");
    push_p(&mut v, '.');
    push_id(&mut v, "on_change");
    push_token(&mut v, group(Delimiter::Parenthesis, callback));
    proof {
        let condition = seq![
            id_tv("mapping"@),
            TokenView::Group(
                Delimiter::Parenthesis,
                seq![id_tv("std"@)] + path_sep() + seq![id_tv("clone"@)] + path_sep() + seq![
                    id_tv("Clone"@),
                ] + path_sep() + seq![
                    id_tv("clone"@),
                    TokenView::Group(Delimiter::Parenthesis, seq![id_tv("current"@)]),
                ],
            ),
        ];
        assert(cloned_v =~= seq![id_tv("std"@)] + path_sep() + seq![id_tv("clone"@)] + path_sep()
            + seq![id_tv("Clone"@)] + path_sep() + seq![
            id_tv("clone"@),
            TokenView::Group(Delimiter::Parenthesis, seq![id_tv("current"@)]),
        ]);
        assert(callback_v =~= seq![
            id_tv("move"@),
            p_tv('|'),
            id_tv("previous"@),
            p_tv(','),
            id_tv("current"@),
            p_tv('|'),
            id_tv("if"@),
        ] + condition + seq![
            TokenView::Group(Delimiter::Brace, class_call_tokens("add_1"@)),
            id_tv("else"@),
            TokenView::Group(Delimiter::Brace, class_call_tokens("remove_1"@)),
        ]);
        assert(names_v =~= seq![id_tv("store"@), p_tv(','), id_tv("mapping"@), p_tv(','), id_tv("class_name"@)]);
        assert(all_tokens_view(v) =~= class_block(element, expression@));
    }
    v
}

impl Data {
    /// Adds a block of code.
    fn push_block(&mut self, block: Vec<TokenTree>)
        ensures
            blocks_view(final(self).reactivity@) == blocks_view(old(self).reactivity@).push(
                all_tokens_view(block),
            ),
            final(self).components == old(self).components,
            final(self).for_loops == old(self).for_loops,
    {
        let ghost before = self.reactivity@;
        self.reactivity.push(block);
        assert(blocks_view(self.reactivity@) =~= blocks_view(before).push(all_tokens_view(block)));
    }

    /// Adds, for the element the attributes belong to, one block for each event
    /// listener and then one for each reactive class, in order.
    pub fn add_event_data(&mut self, attributes: Attributes)
        ensures
            blocks_view(final(self).reactivity@) == blocks_view(old(self).reactivity@) + event_blocks(
                attributes.id,
                entries_view(attributes.events@),
            ) + class_blocks(attributes.id, expr_list_view(attributes.reactive_classes@)),
            final(self).components == old(self).components,
            final(self).for_loops == old(self).for_loops,
    {
        let element = attributes.id;
        let ghost start = blocks_view(self.reactivity@);
        let ghost events = entries_view(attributes.events@);
        let mut i: usize = 0;
        while i < attributes.events.len()
            invariant
                events == entries_view(attributes.events@),
                i <= attributes.events@.len(),
                element == attributes.id,
                blocks_view(self.reactivity@) == start + event_blocks(element, events.take(i as int)),
                self.components == old(self).components,
                self.for_loops == old(self).for_loops,
            decreases attributes.events@.len() - i,
        {
            let (event, callback) = &attributes.events[i];
            let mut block: Vec<TokenTree> = Vec::new();
            push_clone_id(&mut block);
            closure(&mut block, callback);
            push_element_lookup(&mut block, element);
            listen(&mut block, event.as_str());
            assert(all_tokens_view(block) =~= event_block(element, event@, callback@));
            self.push_block(block);
            assert(events.take(i + 1) =~= events.take(i as int).push(events[i as int]));
            assert(event_blocks(element, events.take(i + 1)) =~= event_blocks(element, events.take(i as int)).push(
                event_block(element, event@, callback@),
            ));
            i = i + 1;
        }
        assert(events.take(i as int) =~= events);
        let ghost middle = blocks_view(self.reactivity@);
        let ghost classes = expr_list_view(attributes.reactive_classes@);
        let mut j: usize = 0;
        while j < attributes.reactive_classes.len()
            invariant
                classes == expr_list_view(attributes.reactive_classes@),
                j <= attributes.reactive_classes@.len(),
                element == attributes.id,
                blocks_view(self.reactivity@) == middle + class_blocks(element, classes.take(j as int)),
                self.components == old(self).components,
                self.for_loops == old(self).for_loops,
            decreases attributes.reactive_classes@.len() - j,
        {
            let block = class_block_code(element, &attributes.reactive_classes[j]);
            self.push_block(block);
            assert(classes.take(j + 1) =~= classes.take(j as int).push(classes[j as int]));
            assert(class_blocks(element, classes.take(j + 1)) =~= class_blocks(element, classes.take(j as int)).push(
                class_block(element, attributes.reactive_classes@[j as int]@),
            ));
            j = j + 1;
        }
        assert(classes.take(j as int) =~= classes);
    }
}

/// The code that shows the value of `store` in the element `element` each time the
/// store changes: `let id = Rc::clone(&id); <store>.on_change(move |_, new| {
/// let element = <element lookup>; quux::dom::as_html_element(element)
/// .set_inner_text(&std::string::ToString::to_string(new)); });`
pub open spec fn store_block(store: Seq<TokenView>, element: u64) -> Seq<TokenView> {
    let text = seq![p_tv('&'), id_tv("std"@)] + path_sep() + seq![id_tv("string"@)] + path_sep() + seq![
        id_tv("ToString"@),
    ] + path_sep() + seq![
        id_tv("to_string"@),
        TokenView::Group(Delimiter::Parenthesis, seq![id_tv("new"@)]),
    ];
    let body = seq![id_tv("let"@), id_tv("element"@), p_tv('=')] + element_lookup_tokens(element) + seq![
        p_tv(';'),
        id_tv("quux"@),
    ] + path_sep() + seq![id_tv("dom"@)] + path_sep() + seq![
        id_tv("as_html_element"@),
        TokenView::Group(Delimiter::Parenthesis, seq![id_tv("element"@)]),
        p_tv('.'),
        id_tv("set_inner_text"@),
        TokenView::Group(Delimiter::Parenthesis, text),
        p_tv(';'),
    ];
    clone_id_tokens() + store + seq![
        p_tv('.'),
        id_tv("on_change"@),
        TokenView::Group(
            Delimiter::Parenthesis,
            seq![
                id_tv("move"@),
                p_tv('|'),
                id_tv("_"@),
                p_tv(','),
                id_tv("new"@),
                p_tv('|'),
                TokenView::Group(Delimiter::Brace, body),
            ],
        ),
        p_tv(';'),
    ]
}

/// The code of `store_block`.
#[verifier::rlimit(40)]
fn store_block_code(store: &Expr, element: u64) -> (v: Vec<TokenTree>)
    ensures
        all_tokens_view(v) == store_block(store@, element),
{
    let mut new: Vec<TokenTree> = Vec::new();
    push_id(&mut new, "new");
    assert(all_tokens_view(new) =~= seq![id_tv("new"@)]);
    let mut text: Vec<TokenTree> = Vec::new();
    push_p(&mut text, '&');
    push_id(&mut text, "std");
    push_path_sep(&mut text);
    push_id(&mut text, "string");
    push_path_sep(&mut text);
    push_id(&mut text, "ToString");
    push_path_sep(&mut text);
    push_id(&mut text, "to_string");
    push_token(&mut text, group(Delimiter::Parenthesis, new));
    let ghost text_v = all_tokens_view(text);
    let mut element_arg: Vec<TokenTree> = Vec::new();
    push_id(&mut element_arg, "element");
    assert(all_tokens_view(element_arg) =~= seq![id_tv("element"@)]);
    let mut body: Vec<TokenTree> = Vec::new();
    push_id(&mut body, "let");
    push_id(&mut body, "element");
    push_p(&mut body, '=');
    push_element_lookup(&mut body, element);
    push_p(&mut body, ';');
    push_id(&mut body, "quux");
    push_path_sep(&mut body);
    push_id(&mut body, "dom");
    push_path_sep(&mut body);
    push_id(&mut body, "as_html_element");
    push_token(&mut body, group(Delimiter::Parenthesis, element_arg));
    push_p(&mut body, '.');
    push_id(&mut body, "set_inner_text");
    push_token(&mut body, group(Delimiter::Parenthesis, text));
    push_p(&mut body, ';');
    let ghost body_v = all_tokens_view(body);
    let mut callback: Vec<TokenTree> = Vec::new();
    push_id(&mut callback, "move");
    push_p(&mut callback, '|');
    push_id(&mut callback, "_");
    push_p(&mut callback, ',');
    push_id(&mut callback, "new");
    push_p(&mut callback, '|');
    push_token(&mut callback, group(Delimiter::Brace, body));
    let ghost callback_v = all_tokens_view(callback);
    let mut v: Vec<TokenTree> = Vec::new();
    push_clone_id(&mut v);
    append_tokens(&mut v, &store.tokens);
    push_p(&mut v, '.');
    push_id(&mut v, "on_change");
    push_token(&mut v, group(Delimiter::Parenthesis, callback));
    push_p(&mut v, ';');
    proof {
        let text_s = seq![p_tv('&'), id_tv("std"@)] + path_sep() + seq![id_tv("string"@)] + path_sep()
            + seq![id_tv("ToString"@)] + path_sep() + seq![
            id_tv("to_string"@),
            TokenView::Group(Delimiter::Parenthesis, seq![id_tv("new"@)]),
        ];
        assert(text_v =~= text_s);
        let body_s = seq![id_tv("let"@), id_tv("element"@), p_tv('=')] + element_lookup_tokens(element)
            + seq![p_tv(';'), id_tv("quux"@)] + path_sep() + seq![id_tv("dom"@)] + path_sep() + seq![
            id_tv("as_html_element"@),
            TokenView::Group(Delimiter::Parenthesis, seq![id_tv("element"@)]),
            p_tv('.'),
            id_tv("set_inner_text"@),
            TokenView::Group(Delimiter::Parenthesis, text_s),
            p_tv(';'),
        ];
        assert(body_v =~= body_s);
        assert(callback_v =~= seq![
            id_tv("move"@),
            p_tv('|'),
            id_tv("_"@),
            p_tv(','),
            id_tv("new"@),
            p_tv('|'),
            TokenView::Group(Delimiter::Brace, body_s),
        ]);
        assert(all_tokens_view(v) =~= store_block(store@, element));
    }
    v
}

/// What the client build gathers from an item: its components, its blocks of code
/// and its loops. A component is itself gathered; an element adds the code of its
/// events and reactive classes, then gathers its items, follows its store, or
/// keeps its loop.
pub open spec fn client_item(i: Item) -> (Seq<Component>, Seq<Seq<TokenView>>, Seq<ForLoop>)
    decreases i, 0int,
{
    match i {
        Item::Component(c) => (seq![c], Seq::empty(), Seq::empty()),
        Item::Expression(_) => (Seq::empty(), Seq::empty(), Seq::empty()),
        Item::Element(e) => {
            let events = event_blocks(e.attributes.id, entries_view(e.attributes.events@)) + class_blocks(
                e.attributes.id,
                expr_list_view(e.attributes.reactive_classes@),
            );
            match e.children {
                Children::Items(items) => {
                    proof {
                        assert(decreases_to!(i => e));
                        assert(decreases_to!(e => e.children));
                        assert(decreases_to!(e.children => items));
                        assert(decreases_to!(items => items.items));
                    }
                    let (c, r, f) = client_items(items.items, items.items@.len() as int);
                    (c, events + r, f)
                },
                Children::ReactiveStore(store) => (
                    Seq::empty(),
                    events.push(store_block((*store.0)@, e.attributes.id)),
                    Seq::empty(),
                ),
                Children::ForLoop(f) => (Seq::empty(), events, seq![f]),
            }
        },
    }
}

/// What the client build gathers from the first `n` items of `v`, in order.
pub open spec fn client_items(v: Vec<Item>, n: int) -> (Seq<Component>, Seq<Seq<TokenView>>, Seq<ForLoop>)
    decreases v, n,
{
    if n <= 0 || n > v@.len() {
        (Seq::empty(), Seq::empty(), Seq::empty())
    } else {
        proof {
            assert(decreases_to!(v => v@));
            assert(decreases_to!(v@ => v@[n - 1]));
        }
        let (c, r, f) = client_items(v, n - 1);
        let (c2, r2, f2) = client_item(v@[n - 1]);
        (c + c2, r + r2, f + f2)
    }
}

impl Data {
    /// Nothing gathered.
    pub fn new() -> (d: Data)
        ensures
            d.components@.len() == 0,
            blocks_view(d.reactivity@) == Seq::<Seq<TokenView>>::empty(),
            d.for_loops@.len() == 0,
    {
        let d = Data { components: Vec::new(), reactivity: Vec::new(), for_loops: Vec::new() };
        assert(blocks_view(d.reactivity@) =~= Seq::<Seq<TokenView>>::empty());
        d
    }

    /// Adds the code that shows the value of `store` in the element `id`.
    pub fn add_store_data(&mut self, store: &ReactiveStore, id: u64)
        ensures
            blocks_view(final(self).reactivity@) == blocks_view(old(self).reactivity@).push(
                store_block((*store.0)@, id),
            ),
            final(self).components == old(self).components,
            final(self).for_loops == old(self).for_loops,
    {
        let block = store_block_code(&store.0, id);
        self.push_block(block);
    }

    /// What the client build gathers from `item`, as `client_item` says.
    pub fn from_item(item: Item) -> (d: Data)
        ensures
            (d.components@, blocks_view(d.reactivity@), d.for_loops@) == client_item(item),
        decreases item, 1int,
    {
        let ghost whole = item;
        match item {
            Item::Component(c) => {
                let mut d = Data::new();
                d.components.push(c);
                assert(d.components@ =~= seq![c]);
                assert(d.for_loops@ =~= Seq::<ForLoop>::empty());
                d
            },
            Item::Expression(_) => {
                let d = Data::new();
                assert(d.components@ =~= Seq::<Component>::empty());
                assert(d.for_loops@ =~= Seq::<ForLoop>::empty());
                d
            },
            Item::Element(e) => {
                proof {
                    assert(decreases_to!(whole => e));
                }
                Data::from_element(e)
            },
        }
    }

    /// What the client build gathers from the element `element`, as `client_item`
    /// says of it.
    pub fn from_element(element: Element) -> (d: Data)
        ensures
            (d.components@, blocks_view(d.reactivity@), d.for_loops@) == client_item(
                Item::Element(element),
            ),
        decreases element, 0int,
    {
        let ghost whole = element;
        let Element { attributes, children, .. } = element;
        let id = attributes.id;
        let mut data = Data::new();
        data.add_event_data(attributes);
        let ghost events = blocks_view(data.reactivity@);
        match children {
            Children::Items(items) => {
                proof {
                    assert(decreases_to!(whole => whole.children));
                    assert(decreases_to!(whole.children => items));
                }
                data.add_child_data(items);
                assert(data.components@ =~= Seq::<Component>::empty() + data.components@);
            },
            Children::ReactiveStore(store) => {
                data.add_store_data(&store, id);
                assert(data.components@ =~= Seq::<Component>::empty());
                assert(data.for_loops@ =~= Seq::<ForLoop>::empty());
            },
            Children::ForLoop(f) => {
                let ghost before = data.for_loops@;
                data.for_loops.push(f);
                assert(data.for_loops@ =~= seq![f]);
                assert(data.components@ =~= Seq::<Component>::empty());
            },
        }
        data
    }

    /// Adds what the client build gathers from each of `children`, in order.
    pub fn add_child_data(&mut self, children: Items)
        ensures
            ({
                let (c, r, f) = client_items(children.items, children.items@.len() as int);
                &&& final(self).components@ == old(self).components@ + c
                &&& blocks_view(final(self).reactivity@) == blocks_view(old(self).reactivity@) + r
                &&& final(self).for_loops@ == old(self).for_loops@ + f
            }),
        decreases children, 0int,
    {
        let ghost all = children.items;
        let ghost start_c = self.components@;
        let ghost start_r = blocks_view(self.reactivity@);
        let ghost start_f = self.for_loops@;
        let Items { items } = children;
        let n = items.len();
        let mut rest = items;
        let mut i: usize = 0;
        assert(rest@ =~= all@.skip(0));
        assert(self.components@ =~= start_c + Seq::<Component>::empty());
        assert(blocks_view(self.reactivity@) =~= start_r + Seq::<Seq<TokenView>>::empty());
        assert(self.for_loops@ =~= start_f + Seq::<ForLoop>::empty());
        while i < n
            invariant
                n == all@.len(),
                all == children.items,
                i <= n,
                rest@ == all@.skip(i as int),
                ({
                    let (c, r, f) = client_items(all, i as int);
                    &&& self.components@ == start_c + c
                    &&& blocks_view(self.reactivity@) == start_r + r
                    &&& self.for_loops@ == start_f + f
                }),
            decreases n - i,
        {
            let ghost i0 = i as int;
            let item = rest.remove(0);
            assert(item == all@[i as int]);
            assert(rest@ =~= all@.skip(i + 1));
            proof {
                assert(decreases_to!(children => children.items));
                assert(decreases_to!(all => all@));
                assert(decreases_to!(all@ => all@[i as int]));
                assert(decreases_to!(children => item));
            }
            let child = Data::from_item(item);
            let Data { components: mut cs, reactivity: mut rs, for_loops: mut fs } = child;
            let ghost cs_v = cs@;
            let ghost rs_v = rs@;
            let ghost fs_v = fs@;
            let ghost own_r = self.reactivity@;
            self.components.append(&mut cs);
            self.reactivity.append(&mut rs);
            self.for_loops.append(&mut fs);
            proof {
                assert(blocks_view(own_r + rs_v) =~= blocks_view(own_r) + blocks_view(rs_v));
                let (c0, r0, f0) = client_items(all, i0);
                let (c2, r2, f2) = client_item(all@[i0]);
                assert(client_items(all, i0 + 1) == (c0 + c2, r0 + r2, f0 + f2));
                assert(self.components@ =~= start_c + (c0 + c2));
                assert(blocks_view(self.reactivity@) =~= start_r + (r0 + r2));
                assert(self.for_loops@ =~= start_f + (f0 + f2));
            }
            i = i + 1;
        }
    }
}

/// The tokens of `use wasm_bindgen::JsCast; use quux::errors::MapInternal;
/// use std::rc::Rc; use quux::component::Component; let children =
/// <context>.components; let mut for_loop_components = <context>.for_loop_components;
/// let id = Rc::new(<context>.id);`
pub open spec fn client_prelude(context: Seq<TokenView>) -> Seq<TokenView> {
    client_uses() + let_field(false, "children"@, context, "components"@) + let_field(
        true,
        "for_loop_components"@,
        context,
        "for_loop_components"@,
    ) + seq![id_tv("let"@), id_tv("id"@), p_tv('='), id_tv("Rc"@)] + path_sep() + seq![
        id_tv("new"@),
        TokenView::Group(Delimiter::Parenthesis, context + seq![p_tv('.'), id_tv("id"@)]),
        p_tv(';'),
    ]
}

/// The tokens of `let <mut> <name> = <context>.<field>;`.
pub open spec fn let_field(mutable: bool, name: Seq<char>, context: Seq<TokenView>, field: Seq<char>) -> Seq<
    TokenView,
> {
    let head = if mutable {
        seq![id_tv("let"@), id_tv("mut"@), id_tv(name), p_tv('=')]
    } else {
        seq![id_tv("let"@), id_tv(name), p_tv('=')]
    };
    head + context + seq![p_tv('.'), id_tv(field), p_tv(';')]
}

/// The block that takes back the `j`th component and hands it to its binding:
/// `{ let child = children.<j>; let component = child.render().component;
/// <binding = component>; }`.
pub open spec fn take_back_block(j: nat, binding: Option<Seq<char>>) -> TokenView {
    TokenView::Group(Delimiter::Brace, take_back_body(j, binding))
}

/// The tokens between the braces of `take_back_block(j, binding)`.
pub open spec fn take_back_body(j: nat, binding: Option<Seq<char>>) -> Seq<TokenView> {
    let bind = match binding {
        Some(b) => seq![id_tv(b), p_tv('='), id_tv("component"@)],
        None => Seq::empty(),
    };
        seq![
            id_tv("let"@),
            id_tv("child"@),
            p_tv('='),
            id_tv("children"@),
            p_tv('.'),
            TokenView::Literal(decimal(j)),
            p_tv(';'),
            id_tv("let"@),
            id_tv("component"@),
            p_tv('='),
            id_tv("child"@),
            p_tv('.'),
            id_tv("render"@),
            unit_tv(),
            p_tv('.'),
            id_tv("component"@),
            p_tv(';'),
        ] + bind + seq![p_tv(';')]
}

/// The take-back blocks of the first `n` components, with `;` between two of them.
pub open spec fn take_back_blocks(comps: Seq<Component>, n: nat) -> Seq<TokenView>
    decreases n,
{
    if n == 0 {
        Seq::empty()
    } else if n == 1 {
        seq![take_back_block(0, component_view(comps[0]).binding)]
    } else {
        take_back_blocks(comps, (n - 1) as nat) + seq![
            p_tv(';'),
            take_back_block((n - 1) as nat, component_view(comps[n - 1]).binding),
        ]
    }
}

/// The client code of loop `j` of a view, as `ForLoop::reactivity` gives it.
pub open spec fn loop_code(j: nat, f: ForLoop) -> Seq<TokenView> {
    let comps = names_and_bindings(components_of(qitem_view(*f.item)));
    let follow = match f.iterable {
        ForLoopIterable::Reactive(store) => spec_list_store_code(store@, f.id, bindings_of(comps)),
        ForLoopIterable::Static(_) => Seq::empty(),
    };
    spec_binding_code(f.iterable is Reactive, comps, j) + seq![p_tv(';')] + follow + seq![p_tv(';')]
}

/// The client code of the first `n` loops, one after the other.
pub open spec fn loops_code(loops: Seq<ForLoop>, n: nat) -> Seq<TokenView>
    decreases n,
{
    if n == 0 {
        Seq::empty()
    } else {
        loops_code(loops, (n - 1) as nat) + loop_code((n - 1) as nat, loops[n - 1])
    }
}

/// Whether the client code of a loop can be made: a loop over a store holds no
/// bare expression.
pub open spec fn loop_ok(f: ForLoop) -> bool {
    f.iterable is Reactive ==> !(*f.item is Expression)
}

/// The client code of a view with context `context` whose element gathers
/// `gathered`: the prelude, the take-back blocks and `;`, the loops' code and `;`,
/// each code block between braces with `;` between them and `;`, then
/// `quux::view::output::Client::new(self)`.
pub open spec fn view_client_tokens(
    context: Seq<TokenView>,
    gathered: (Seq<Component>, Seq<Seq<TokenView>>, Seq<ForLoop>),
) -> Seq<TokenView> {
    client_prelude(context) + take_back_blocks(gathered.0, gathered.0.len()) + seq![p_tv(';')]
        + loops_code(gathered.2, gathered.2.len()) + seq![p_tv(';')] + code_blocks(gathered.1) + seq![
        p_tv(';'),
        id_tv("quux"@),
    ] + path_sep() + seq![id_tv("view"@)] + path_sep() + seq![id_tv("output"@)] + path_sep() + seq![
        id_tv("Client"@),
    ] + path_sep() + seq![id_tv("new"@), TokenView::Group(Delimiter::Parenthesis, seq![id_tv("self"@)])]
}

/// The tokens of the `use` items of `client_prelude`.
pub open spec fn client_uses() -> Seq<TokenView> {
    seq![id_tv("use"@), id_tv("wasm_bindgen"@)] + path_sep() + seq![
        id_tv("JsCast"@),
        p_tv(';'),
        id_tv("use"@),
        id_tv("quux"@),
    ] + path_sep() + seq![id_tv("errors"@)] + path_sep() + seq![
        id_tv("MapInternal"@),
        p_tv(';'),
        id_tv("use"@),
        id_tv("std"@),
    ] + path_sep() + seq![id_tv("rc"@)] + path_sep() + seq![
        id_tv("Rc"@),
        p_tv(';'),
        id_tv("use"@),
        id_tv("quux"@),
    ] + path_sep() + seq![id_tv("component"@)] + path_sep() + seq![id_tv("Component"@), p_tv(';')]
}

/// The `use` items of `client_prelude`.
fn push_client_uses(v: &mut Vec<TokenTree>)
    ensures
        all_tokens_view(*final(v)) == all_tokens_view(*old(v)) + client_uses(),
{
    let ghost start = all_tokens_view(*v);
    push_id(v, "use");
    push_id(v, "wasm_bindgen");
    push_path_sep(v);
    push_id(v, "JsCast");
    push_p(v, ';');
    push_id(v, "use");
    push_id(v, "quux");
    push_path_sep(v);
    push_id(v, "errors");
    push_path_sep(v);
    push_id(v, "MapInternal");
    push_p(v, ';');
    push_id(v, "use");
    push_id(v, "std");
    push_path_sep(v);
    push_id(v, "rc");
    push_path_sep(v);
    push_id(v, "Rc");
    push_p(v, ';');
    push_id(v, "use");
    push_id(v, "quux");
    push_path_sep(v);
    push_id(v, "component");
    push_path_sep(v);
    push_id(v, "Component");
    push_p(v, ';');
    assert(all_tokens_view(*v) =~= start + client_uses());
}

/// The tokens of `let_field(mutable, name, context, field)`.
fn push_let_field(v: &mut Vec<TokenTree>, mutable: bool, name: &str, context: &Expr, field: &str)
    ensures
        all_tokens_view(*final(v)) == all_tokens_view(*old(v)) + let_field(mutable, name@, context@, field@),
{
    let ghost start = all_tokens_view(*v);
    push_id(v, "let");
    if mutable {
        push_id(v, "mut");
    }
    push_id(v, name);
    push_p(v, '=');
    append_tokens(v, &context.tokens);
    push_p(v, '.');
    push_id(v, field);
    push_p(v, ';');
    assert(all_tokens_view(*v) =~= start + let_field(mutable, name@, context@, field@));
}

/// The tokens of `client_prelude(context)`.
fn push_client_prelude(v: &mut Vec<TokenTree>, context: &Expr)
    ensures
        all_tokens_view(*final(v)) == all_tokens_view(*old(v)) + client_prelude(context@),
{
    let ghost start = all_tokens_view(*v);
    let mut id_arg: Vec<TokenTree> = Vec::new();
    append_tokens(&mut id_arg, &context.tokens);
    push_p(&mut id_arg, '.');
    push_id(&mut id_arg, "id");
    assert(all_tokens_view(id_arg) =~= context@ + seq![p_tv('.'), id_tv("id"@)]);
    push_client_uses(v);
    push_let_field(v, false, "children", context, "components");
    push_let_field(v, true, "for_loop_components", context, "for_loop_components");
    let ghost lets = all_tokens_view(*v);
    push_id(v, "let");
    push_id(v, "id");
    push_p(v, '=');
    push_id(v, "Rc");
    push_path_sep(v);
    push_id(v, "new");
    push_token(v, group(Delimiter::Parenthesis, id_arg));
    push_p(v, ';');
    assert(all_tokens_view(*v) =~= start + client_prelude(context@));
}

/// The block of `take_back_block(j, binding)`.
fn take_back_token(j: usize, binding: &Option<String>) -> (t: TokenTree)
    ensures
        crate::tokens::token_view(t) == take_back_block(
            j as nat,
            match binding {
                Some(b) => Some(b@),
                None => None,
            },
        ),
{
    let mut b: Vec<TokenTree> = Vec::new();
    push_id(&mut b, "let");
    push_id(&mut b, "child");
    push_p(&mut b, '=');
    push_id(&mut b, "children");
    push_p(&mut b, '.');
    push_token(&mut b, index_literal(j));
    push_p(&mut b, ';');
    push_id(&mut b, "let");
    push_id(&mut b, "component");
    push_p(&mut b, '=');
    push_id(&mut b, "child");
    push_p(&mut b, '.');
    push_id(&mut b, "render");
    push_token(&mut b, unit_token());
    push_p(&mut b, '.');
    push_id(&mut b, "component");
    push_p(&mut b, ';');
    let ghost head = all_tokens_view(b);
    match binding {
        Some(name) => {
            push_id(&mut b, name.as_str());
            push_p(&mut b, '=');
            push_id(&mut b, "component");
        },
        None => {},
    }
    push_p(&mut b, ';');
    let ghost opt = match binding {
        Some(n) => Some(n@),
        None => None,
    };
    assert(all_tokens_view(b) =~= take_back_body(j as nat, opt));
    group(Delimiter::Brace, b)
}

/// The client code of the view `tree`, as `view_client_tokens` says of what its
/// element gathers.
#[verifier::rlimit(80)]
pub fn generate(tree: crate::view::parse::View) -> (r: Vec<TokenTree>)
    requires
        forall|k: int|
            0 <= k < client_item(Item::Element(tree.element)).2.len() ==> #[trigger] loop_ok(
                client_item(Item::Element(tree.element)).2[k],
            ),
    ensures
        all_tokens_view(r) == view_client_tokens(tree.context@, client_item(Item::Element(tree.element))),
{
    let crate::view::parse::View { context, element } = tree;
    let data = Data::from_element(element);
    let ghost gathered = (data.components@, blocks_view(data.reactivity@), data.for_loops@);
    let Data { components, reactivity, mut for_loops } = data;
    let ghost loops = for_loops@;
    let mut v: Vec<TokenTree> = Vec::new();
    push_client_prelude(&mut v, &context);
    let ghost prelude = all_tokens_view(v);
    let mut i: usize = 0;
    while i < components.len()
        invariant
            i <= components@.len(),
            gathered.0 == components@,
            all_tokens_view(v) == prelude + take_back_blocks(components@, i as nat),
        decreases components@.len() - i,
    {
        if i > 0 {
            push_p(&mut v, ';');
        }
        push_token(&mut v, take_back_token(i, &components[i].binding));
        if i == 0 {
            assert(all_tokens_view(v) =~= prelude + take_back_blocks(components@, 1));
        } else {
            assert(all_tokens_view(v) =~= prelude + take_back_blocks(components@, (i + 1) as nat));
        }
        i = i + 1;
    }
    push_p(&mut v, ';');
    let ghost head = all_tokens_view(v);
    let n = for_loops.len();
    let mut k: usize = 0;
    while k < n
        invariant
            n == for_loops@.len(),
            n == loops.len(),
            k <= n,
            gathered.2 == loops,
            forall|q: int| 0 <= q < loops.len() ==> #[trigger] loop_ok(loops[q]),
            forall|q: int| k <= q < n ==> for_loops@[q] == loops[q],
            all_tokens_view(v) == head + loops_code(loops, k as nat),
        decreases n - k,
    {
        let ghost before = for_loops@;
        assert(loop_ok(loops[k as int]));
        let mut f = for_loops.remove(k);
        let code = f.reactivity(k);
        for_loops.insert(k, f);
        append_tokens(&mut v, &code);
        assert(all_tokens_view(v) =~= head + loops_code(loops, (k + 1) as nat));
        assert forall|q: int| k + 1 <= q < n implies for_loops@[q] == loops[q] by {
            assert(for_loops@[q] == before[q]);
        }
        k = k + 1;
    }
    push_p(&mut v, ';');
    let ghost middle = all_tokens_view(v);
    let mut j: usize = 0;
    while j < reactivity.len()
        invariant
            j <= reactivity@.len(),
            gathered.1 == blocks_view(reactivity@),
            all_tokens_view(v) == middle + code_blocks(blocks_view(reactivity@).take(j as int)),
        decreases reactivity@.len() - j,
    {
        if j > 0 {
            push_p(&mut v, ';');
        }
        let inner = crate::tokens::clone_tokens(&reactivity[j]);
        push_token(&mut v, group(Delimiter::Brace, inner));
        let ghost taken = blocks_view(reactivity@).take(j + 1);
        assert(taken.drop_last() =~= blocks_view(reactivity@).take(j as int));
        assert(taken.last() == all_tokens_view(reactivity@[j as int]));
        if j == 0 {
            assert(all_tokens_view(v) =~= middle + code_blocks(taken));
        } else {
            assert(all_tokens_view(v) =~= middle + code_blocks(taken));
        }
        j = j + 1;
    }
    assert(blocks_view(reactivity@).take(j as int) =~= blocks_view(reactivity@));
    let mut this: Vec<TokenTree> = Vec::new();
    push_id(&mut this, "self");
    assert(all_tokens_view(this) =~= seq![id_tv("self"@)]);
    let ghost tail_start = all_tokens_view(v);
    push_p(&mut v, ';');
    push_id(&mut v, "quux");
    push_path_sep(&mut v);
    push_id(&mut v, "view");
    push_path_sep(&mut v);
    push_id(&mut v, "output");
    push_path_sep(&mut v);
    push_id(&mut v, "Client");
    push_path_sep(&mut v);
    push_id(&mut v, "new");
    push_token(&mut v, group(Delimiter::Parenthesis, this));
    assert(all_tokens_view(v) =~= view_client_tokens(context@, gathered));
    v
}

} // verus!
