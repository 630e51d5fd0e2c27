//! The attributes of an element, sorted as they are read: plain attributes, event
//! listeners (`on:event`), reactive classes (`class:active-when`) and attributes
//! bound to a store (`key = $store`).

use vstd::prelude::*;
use crate::entries::{entries_map, insert_entry, keys_distinct};
use crate::text::str_eq;
use crate::tokens::{
    lemma_tokens_view_index, lemma_tokens_view_same, token_view, tokens_view, Delimiter, Expr,
    Spacing, TokenTree, TokenView,
};
use crate::view::parse::html_ident::HtmlIdent;

verus! {

/// The value of an attribute: an expression, or a store (written `$store`) that
/// the attribute follows.
pub enum Value {
    Reactive(Expr),
    Static(Expr),
}

/// An attribute as written: `key = value`.
pub struct Attribute {
    pub key: HtmlIdent,
    pub value: Value,
}

/// The attributes of an element, as mathematical values.
pub struct AttributesView {
    pub attributes: Map<Seq<char>, Seq<TokenView>>,
    pub is_root: bool,
    pub element_needs_id: bool,
    pub reactive_attributes: Map<Seq<char>, Seq<TokenView>>,
    pub events: Map<Seq<char>, Seq<TokenView>>,
    pub reactive_classes: Seq<Seq<TokenView>>,
    pub id: u64,
}

/// The attributes of an element.
pub struct Attributes {
    /// The attributes written in the opening tag, each with its expression.
    pub attributes: Vec<(String, Expr)>,
    /// The element is the root of its view.
    pub is_root: bool,
    /// The element is reactive, so the client must find it by its id.
    pub element_needs_id: bool,
    /// The attributes bound to a store, each with the store.
    pub reactive_attributes: Vec<(String, Expr)>,
    /// The event listeners, by event name.
    pub events: Vec<(String, Expr)>,
    /// The expressions of the reactive classes.
    pub reactive_classes: Vec<Expr>,
    /// The id of the element.
    pub id: u64,
}

/// The values of a map of expressions.
pub open spec fn exprs_view(m: Map<Seq<char>, Expr>) -> Map<Seq<char>, Seq<TokenView>> {
    m.map_values(|e: Expr| e@)
}

/// The values of a list of expressions.
pub open spec fn expr_list_view(s: Seq<Expr>) -> Seq<Seq<TokenView>> {
    s.map_values(|e: Expr| e@)
}

impl View for Attributes {
    type V = AttributesView;

    open spec fn view(&self) -> AttributesView {
        AttributesView {
            attributes: exprs_view(entries_map(self.attributes@)),
            is_root: self.is_root,
            element_needs_id: self.element_needs_id,
            reactive_attributes: exprs_view(entries_map(self.reactive_attributes@)),
            events: exprs_view(entries_map(self.events@)),
            reactive_classes: expr_list_view(self.reactive_classes@),
            id: self.id,
        }
    }
}

/// The characters of `on:`.
pub open spec fn event_prefix() -> Seq<char> {
    seq!['o', 'n', ':']
}

/// The characters of `class:active-when`.
pub open spec fn active_class_key() -> Seq<char> {
    seq!['c', 'l', 'a', 's', 's', ':', 'a', 'c', 't', 'i', 'v', 'e', '-', 'w', 'h', 'e', 'n']
}

/// The value `key` has in `m`, if any.
pub open spec fn lookup(m: Map<Seq<char>, Seq<TokenView>>, key: Seq<char>) -> Option<
    Seq<TokenView>,
> {
    if m.contains_key(key) {
        Some(m[key])
    } else {
        None
    }
}

/// Adding a static attribute: an event listener for a key `on:event`, a reactive
/// class for the key `class:active-when`, a plain attribute otherwise. Gives the
/// new attributes and the value the key had before (always `None` for a reactive
/// class).
pub open spec fn spec_insert_static(a: AttributesView, key: Seq<char>, value: Seq<TokenView>) -> (
    AttributesView,
    Option<Seq<TokenView>>,
) {
    if key.len() >= 3 && key.subrange(0, 3) == event_prefix() {
        let event = key.skip(3);
        (
            AttributesView { element_needs_id: true, events: a.events.insert(event, value), ..a },
            lookup(a.events, event),
        )
    } else if key == active_class_key() {
        (
            AttributesView {
                element_needs_id: true,
                reactive_classes: a.reactive_classes.push(value),
                ..a
            },
            None,
        )
    } else {
        (AttributesView { attributes: a.attributes.insert(key, value), ..a }, lookup(a.attributes, key))
    }
}

/// The tokens of `value.get()`.
pub open spec fn get_call(value: Seq<TokenView>) -> Seq<TokenView> {
    value + seq![
        TokenView::Punct('.', Spacing::Alone),
        TokenView::Ident(seq!['g', 'e', 't']),
        TokenView::Group(Delimiter::Parenthesis, Seq::empty()),
    ]
}

/// Adding an attribute bound to the store `value`: the store is kept among the
/// reactive attributes, and the attribute takes the store's current value,
/// `value.get()`. Gives the value the key had among the attributes before.
pub open spec fn spec_insert_reactive(
    a: AttributesView,
    key: Seq<char>,
    value: Seq<TokenView>,
) -> (AttributesView, Option<Seq<TokenView>>) {
    (
        AttributesView {
            reactive_attributes: a.reactive_attributes.insert(key, value),
            attributes: a.attributes.insert(key, get_call(value)),
            ..a
        },
        lookup(a.attributes, key),
    )
}

/// Two attributes of one element have the same key.
#[derive(Clone, Copy, Debug, PartialEq, Eq, Structural)]
pub struct DuplicateAttribute;

/// Adding one attribute as written: the new attributes, or `Err` when its key was
/// already taken.
pub open spec fn spec_add_attribute(a: AttributesView, key: Seq<char>, value: Value) -> Result<
    AttributesView,
    DuplicateAttribute,
> {
    let (next, previous) = match value {
        Value::Static(e) => spec_insert_static(a, key, e@),
        Value::Reactive(e) => spec_insert_reactive(a, key, e@),
    };
    if previous is Some {
        Err(DuplicateAttribute)
    } else {
        Ok(next)
    }
}

/// Adding the attributes `list` in order, from `a` on.
pub open spec fn spec_add_attributes(a: AttributesView, list: Seq<Attribute>) -> Result<
    AttributesView,
    DuplicateAttribute,
>
    decreases list.len(),
{
    if list.len() == 0 {
        Ok(a)
    } else {
        match spec_add_attributes(a, list.drop_last()) {
            Ok(b) => spec_add_attribute(b, list.last().key.0@, list.last().value),
            Err(e) => Err(e),
        }
    }
}

/// Inserting into a map of expressions changes its values the same way.
pub proof fn lemma_exprs_view_insert(m: Map<Seq<char>, Expr>, key: Seq<char>, e: Expr)
    ensures
        exprs_view(m.insert(key, e)) == exprs_view(m).insert(key, e@),
{
    assert(exprs_view(m.insert(key, e)) =~= exprs_view(m).insert(key, e@));
}

/// What the key had in a map of expressions, as values.
proof fn lemma_exprs_view_lookup(m: Map<Seq<char>, Expr>, key: Seq<char>, previous: Option<Expr>)
    requires
        previous == (if m.contains_key(key) {
            Some(m[key])
        } else {
            None
        }),
    ensures
        match previous {
            Some(p) => lookup(exprs_view(m), key) == Some(p@),
            None => lookup(exprs_view(m), key) is None,
        },
{
}

/// The tokens of `value.get()`.
pub fn get_call_expr(value: &Expr) -> (r: Expr)
    ensures
        r@ == get_call(value@),
{
    let mut tokens = crate::tokens::clone_tokens(&value.tokens);
    let ghost c = tokens@;
    let ghost n: int = value.tokens@.len() as int;
    tokens.push(TokenTree::Punct('.', Spacing::Alone));
    let get = String::from_str("get");
    proof {
        reveal_strlit("get");
    }
    tokens.push(TokenTree::Ident(get));
    tokens.push(TokenTree::Group(Delimiter::Parenthesis, Vec::new()));
    let r = Expr { tokens };
    proof {
        assert("get"@ =~= seq!['g', 'e', 't']);
        assert(r.tokens@.subrange(0, n) =~= c);
        lemma_tokens_view_index(r.tokens, n + 3);
        lemma_tokens_view_index(value.tokens, n);
        assert(tokens_view(r.tokens, n + 3) =~= get_call(value@)) by {
            assert(token_view(r.tokens@[n + 2]) =~= TokenView::Group(
                Delimiter::Parenthesis,
                Seq::empty(),
            )) by {
                let g: Vec<TokenTree> = r.tokens@[n + 2]->Group_1;
                assert(tokens_view(g, 0) =~= Seq::<TokenView>::empty());
            }
            assert forall|i: int| 0 <= i < n implies tokens_view(r.tokens, n + 3)[i] == get_call(
                value@,
            )[i] by {
                assert(r.tokens@[i] == r.tokens@.subrange(0, n)[i]);
                assert(r.tokens@[i] == c[i]);
            }
        }
    }
    r
}

/// The keys and the values of the expressions of a list of entries, in order.
pub open spec fn entries_view(s: Seq<(String, Expr)>) -> Seq<(Seq<char>, Seq<TokenView>)> {
    s.map_values(|e: (String, Expr)| (e.0@, e.1@))
}

/// Entries with the same keys and values, in the same order, stand for the same map
/// of values.
pub proof fn lemma_entries_view_map(a: Seq<(String, Expr)>, b: Seq<(String, Expr)>)
    requires
        entries_view(a) == entries_view(b),
    ensures
        exprs_view(entries_map(a)) == exprs_view(entries_map(b)),
    decreases a.len(),
{
    assert(a.len() == entries_view(a).len());
    assert(b.len() == entries_view(b).len());
    if a.len() > 0 {
        assert(entries_view(a.drop_last()) =~= entries_view(a).drop_last());
        assert(entries_view(b.drop_last()) =~= entries_view(b).drop_last());
        lemma_entries_view_map(a.drop_last(), b.drop_last());
        assert(entries_view(a)[a.len() - 1] == entries_view(b)[b.len() - 1]);
        let ma = entries_map(a.drop_last());
        let mb = entries_map(b.drop_last());
        lemma_exprs_view_insert(ma, a.last().0@, a.last().1);
        lemma_exprs_view_insert(mb, b.last().0@, b.last().1);
    }
}

/// Copies of the entries `s`.
fn copy_entries(s: &Vec<(String, Expr)>) -> (r: Vec<(String, Expr)>)
    ensures
        entries_view(r@) == entries_view(s@),
        keys_distinct(s@) ==> keys_distinct(r@),
{
    let mut r: Vec<(String, Expr)> = Vec::new();
    let mut i: usize = 0;
    while i < s.len()
        invariant
            i <= s@.len(),
            entries_view(r@) == entries_view(s@.take(i as int)),
        decreases s@.len() - i,
    {
        let key = s[i].0.clone();
        let value = s[i].1.copy();
        let ghost before = r@;
        assert(key@ == s@[i as int].0@);
        r.push((key, value));
        assert(r@ =~= before.push((key, value)));
        assert(s@.take(i + 1) =~= s@.take(i as int).push(s@[i as int]));
        assert(entries_view(before.push((key, value))) =~= entries_view(before).push(
            (key@, value@),
        ));
        assert(entries_view(s@.take(i as int).push(s@[i as int])) =~= entries_view(
            s@.take(i as int),
        ).push((s@[i as int].0@, s@[i as int].1@)));
        assert(entries_view(r@) =~= entries_view(s@.take(i + 1)));
        i = i + 1;
    }
    assert(s@.take(s@.len() as int) =~= s@);
    assert(keys_distinct(s@) ==> keys_distinct(r@)) by {
        if keys_distinct(s@) {
            assert forall|a: int, b: int| 0 <= a < b < r@.len() implies #[trigger] r@[a].0@
                != #[trigger] r@[b].0@ by {
                assert(entries_view(r@)[a] == entries_view(s@)[a]);
                assert(entries_view(r@)[b] == entries_view(s@)[b]);
            }
        }
    }
    r
}

impl Attributes {
    /// No key stands twice in a map of the attributes.
    pub open spec fn wf(&self) -> bool {
        &&& keys_distinct(self.attributes@)
        &&& keys_distinct(self.reactive_attributes@)
        &&& keys_distinct(self.events@)
    }

    /// A copy of the attributes.
    pub fn copy(&self) -> (r: Attributes)
        requires
            self.wf(),
        ensures
            r.wf(),
            r@ == self@,
            entries_view(r.attributes@) == entries_view(self.attributes@),
            entries_view(r.reactive_attributes@) == entries_view(self.reactive_attributes@),
            entries_view(r.events@) == entries_view(self.events@),
    {
        let mut classes: Vec<Expr> = Vec::new();
        let mut i: usize = 0;
        while i < self.reactive_classes.len()
            invariant
                i <= self.reactive_classes@.len(),
                expr_list_view(classes@) == expr_list_view(self.reactive_classes@.take(i as int)),
            decreases self.reactive_classes@.len() - i,
        {
            let e = self.reactive_classes[i].copy();
            let ghost before = classes@;
            classes.push(e);
            assert(self.reactive_classes@.take(i + 1) =~= self.reactive_classes@.take(i as int).push(
                self.reactive_classes@[i as int],
            ));
            assert(expr_list_view(before.push(e)) =~= expr_list_view(before).push(e@));
            assert(expr_list_view(self.reactive_classes@.take(i as int).push(
                self.reactive_classes@[i as int],
            )) =~= expr_list_view(self.reactive_classes@.take(i as int)).push(
                self.reactive_classes@[i as int]@,
            ));
            assert(expr_list_view(classes@) =~= expr_list_view(
                self.reactive_classes@.take(i + 1),
            ));
            i = i + 1;
        }
        assert(self.reactive_classes@.take(self.reactive_classes@.len() as int)
            =~= self.reactive_classes@);
        let r = Attributes {
            attributes: copy_entries(&self.attributes),
            is_root: self.is_root,
            element_needs_id: self.element_needs_id,
            reactive_attributes: copy_entries(&self.reactive_attributes),
            events: copy_entries(&self.events),
            reactive_classes: classes,
            id: self.id,
        };
        proof {
            lemma_entries_view_map(r.attributes@, self.attributes@);
            lemma_entries_view_map(r.reactive_attributes@, self.reactive_attributes@);
            lemma_entries_view_map(r.events@, self.events@);
        }
        r
    }

    /// No attributes yet, for the element with the given id.
    pub fn new(id: u64) -> (a: Attributes)
        ensures
            a.wf(),
            a@.attributes == Map::<Seq<char>, Seq<TokenView>>::empty(),
            a@.reactive_attributes == Map::<Seq<char>, Seq<TokenView>>::empty(),
            a@.events == Map::<Seq<char>, Seq<TokenView>>::empty(),
            a@.reactive_classes == Seq::<Seq<TokenView>>::empty(),
            !a@.is_root,
            !a@.element_needs_id,
            a@.id == id,
    {
        let a = Attributes {
            attributes: Vec::new(),
            is_root: false,
            element_needs_id: false,
            reactive_attributes: Vec::new(),
            events: Vec::new(),
            reactive_classes: Vec::new(),
            id,
        };
        assert(a@.attributes =~= Map::<Seq<char>, Seq<TokenView>>::empty());
        assert(a@.reactive_attributes =~= Map::<Seq<char>, Seq<TokenView>>::empty());
        assert(a@.events =~= Map::<Seq<char>, Seq<TokenView>>::empty());
        assert(a@.reactive_classes =~= Seq::<Seq<TokenView>>::empty());
        a
    }

    /// Adds a static attribute, as `spec_insert_static` says: an event listener for
    /// a key `on:event`, a reactive class for `class:active-when`, a plain attribute
    /// otherwise. Returns the value the key had before.
    pub fn insert_static(&mut self, key: &str, value: Expr) -> (previous: Option<Expr>)
        requires
            old(self).wf(),
        ensures
            final(self).wf(),
            final(self)@ == spec_insert_static(old(self)@, key@, value@).0,
            match previous {
                Some(p) => spec_insert_static(old(self)@, key@, value@).1 == Some(p@),
                None => spec_insert_static(old(self)@, key@, value@).1 is None,
            },
    {
        let n = key.unicode_len();
        if n >= 3 && key.get_char(0) == 'o' && key.get_char(1) == 'n' && key.get_char(2) == ':' {
            assert(key@.subrange(0, 3) =~= event_prefix());
            let event = key.substring_char(3, n);
            assert(event@ =~= key@.skip(3));
            self.element_needs_id = true;
            let ghost before = entries_map(self.events@);
            let previous = insert_entry(&mut self.events, event.to_owned(), value);
            proof {
                lemma_exprs_view_insert(before, event@, value);
                lemma_exprs_view_lookup(before, event@, previous);
            }
            return previous;
        }
        assert(!(key@.len() >= 3 && key@.subrange(0, 3) == event_prefix())) by {
            if key@.len() >= 3 && key@.subrange(0, 3) == event_prefix() {
                assert(key@[0] == key@.subrange(0, 3)[0]);
                assert(key@[1] == key@.subrange(0, 3)[1]);
                assert(key@[2] == key@.subrange(0, 3)[2]);
            }
        }
        let active = str_eq(key, "class:active-when");
        proof {
            reveal_strlit("class:active-when");
            assert("class:active-when"@ =~= active_class_key());
        }
        if active {
            self.element_needs_id = true;
            let ghost before = self.reactive_classes@;
            self.reactive_classes.push(value);
            assert(expr_list_view(self.reactive_classes@) =~= expr_list_view(before).push(value@));
            return None;
        }
        let ghost before = entries_map(self.attributes@);
        let previous = insert_entry(&mut self.attributes, key.to_owned(), value);
        proof {
            lemma_exprs_view_insert(before, key@, value);
            lemma_exprs_view_lookup(before, key@, previous);
        }
        previous
    }

    /// Adds an attribute bound to the store `value`, as `spec_insert_reactive` says.
    /// Returns the value the key had among the attributes before.
    pub fn insert_reactive(&mut self, key: &str, value: &Expr) -> (previous: Option<Expr>)
        requires
            old(self).wf(),
        ensures
            final(self).wf(),
            final(self)@ == spec_insert_reactive(old(self)@, key@, value@).0,
            match previous {
                Some(p) => spec_insert_reactive(old(self)@, key@, value@).1 == Some(p@),
                None => spec_insert_reactive(old(self)@, key@, value@).1 is None,
            },
    {
        let ghost before_reactive = entries_map(self.reactive_attributes@);
        let store = value.copy();
        insert_entry(&mut self.reactive_attributes, key.to_owned(), store);
        let ghost before = entries_map(self.attributes@);
        let current = get_call_expr(value);
        let previous = insert_entry(&mut self.attributes, key.to_owned(), current);
        proof {
            lemma_exprs_view_insert(before_reactive, key@, store);
            lemma_exprs_view_insert(before, key@, current);
            lemma_exprs_view_lookup(before, key@, previous);
        }
        previous
    }

    /// Adds an attribute as written; `Err` when its key was already taken.
    pub fn add_attribute(&mut self, attribute: Attribute) -> (r: Result<(), DuplicateAttribute>)
        requires
            old(self).wf(),
        ensures
            final(self).wf(),
            match spec_add_attribute(old(self)@, attribute.key.0@, attribute.value) {
                Ok(next) => r is Ok && final(self)@ == next,
                Err(e) => r == Err::<(), DuplicateAttribute>(e),
            },
    {
        let Attribute { key, value } = attribute;
        let previous = match value {
            Value::Static(e) => self.insert_static(key.as_str(), e),
            Value::Reactive(e) => self.insert_reactive(key.as_str(), &e),
        };
        if previous.is_some() {
            Err(DuplicateAttribute)
        } else {
            Ok(())
        }
    }

    /// The attributes of an element with the given id, as written in `attributes`;
    /// `Err` when two of them have the same key.
    pub fn from_attributes(attributes: Vec<Attribute>, id: u64) -> (r: Result<
        Attributes,
        DuplicateAttribute,
    >)
        ensures
            match spec_add_attributes(
                AttributesView {
                    attributes: Map::empty(),
                    is_root: false,
                    element_needs_id: false,
                    reactive_attributes: Map::empty(),
                    events: Map::empty(),
                    reactive_classes: Seq::empty(),
                    id,
                },
                attributes@,
            ) {
                Ok(v) => r matches Ok(a) && a.wf() && a@ == v,
                Err(e) => r == Err::<Attributes, DuplicateAttribute>(e),
            },
    {
        let mut result = Attributes::new(id);
        let ghost start = result@;
        let ghost list = attributes@;
        let mut rest = attributes;
        assert(start == (AttributesView {
            attributes: Map::empty(),
            is_root: false,
            element_needs_id: false,
            reactive_attributes: Map::empty(),
            events: Map::empty(),
            reactive_classes: Seq::empty(),
            id,
        }));
        let mut i: usize = 0;
        let n = rest.len();
        assert(list.skip(0) =~= list);
        assert(list.subrange(0, 0) =~= Seq::<Attribute>::empty());
        while i < n
            invariant
                n == list.len(),
                i <= n,
                rest@ == list.skip(i as int),
                list == attributes@,
                start == (AttributesView {
                    attributes: Map::empty(),
                    is_root: false,
                    element_needs_id: false,
                    reactive_attributes: Map::empty(),
                    events: Map::empty(),
                    reactive_classes: Seq::empty(),
                    id,
                }),
                result.wf(),
                spec_add_attributes(start, list.subrange(0, i as int)) == Ok::<
                    AttributesView,
                    DuplicateAttribute,
                >(result@),
            decreases n - i,
        {
            let ghost current = result@;
            let attribute = rest.remove(0);
            assert(attribute == list[i as int]);
            assert(rest@ =~= list.skip(i + 1));
            assert(list.subrange(0, i + 1).drop_last() =~= list.subrange(0, i as int));
            assert(list.subrange(0, i + 1).last() == list[i as int]);
            match result.add_attribute(attribute) {
                Ok(()) => {},
                Err(e) => {
                    assert(spec_add_attribute(current, list[i as int].key.0@, list[i as int].value)
                        == Err::<AttributesView, DuplicateAttribute>(e));
                    assert(spec_add_attributes(start, list.subrange(0, i + 1)) == Err::<
                        AttributesView,
                        DuplicateAttribute,
                    >(e));
                    proof {
                        lemma_add_attributes_stops(start, list, i as int + 1);
                    }
                    return Err(e);
                },
            }
            i = i + 1;
        }
        assert(list.subrange(0, n as int) =~= list);
        Ok(result)
    }
}

/// Once adding attributes fails, adding more fails with the same error.
proof fn lemma_add_attributes_stops(start: AttributesView, list: Seq<Attribute>, k: int)
    requires
        0 <= k <= list.len(),
        spec_add_attributes(start, list.subrange(0, k)) is Err,
    ensures
        spec_add_attributes(start, list) == spec_add_attributes(start, list.subrange(0, k)),
    decreases list.len() - k,
{
    if k < list.len() {
        assert(list.subrange(0, k + 1).drop_last() =~= list.subrange(0, k));
        lemma_add_attributes_stops(start, list, k + 1);
    } else {
        assert(list.subrange(0, k) =~= list);
    }
}

} // verus!
