use quux::tokens::{Delimiter, Expr, Spacing, TokenTree};
use quux::view::parse::grammar::{
    Children, Component, Element, ForLoop, ForLoopIterable, If, Item, Items,
};
use quux::view::parse::element::attributes::Attributes;
use quux::view::parse::View;

fn convert(stream: proc_macro2::TokenStream) -> Vec<TokenTree> {
    stream
        .into_iter()
        .map(|tree| match tree {
            proc_macro2::TokenTree::Group(g) => TokenTree::Group(
                match g.delimiter() {
                    proc_macro2::Delimiter::Parenthesis => Delimiter::Parenthesis,
                    proc_macro2::Delimiter::Brace => Delimiter::Brace,
                    proc_macro2::Delimiter::Bracket => Delimiter::Bracket,
                    proc_macro2::Delimiter::None => Delimiter::Invisible,
                },
                convert(g.stream()),
            ),
            proc_macro2::TokenTree::Ident(i) => TokenTree::Ident(i.to_string()),
            proc_macro2::TokenTree::Punct(p) => TokenTree::Punct(
                p.as_char(),
                match p.spacing() {
                    proc_macro2::Spacing::Alone => Spacing::Alone,
                    proc_macro2::Spacing::Joint => Spacing::Joint,
                },
            ),
            proc_macro2::TokenTree::Literal(l) => TokenTree::Literal(l.to_string()),
        })
        .collect()
}

fn tokens(src: &str) -> Vec<TokenTree> {
    convert(src.parse::<proc_macro2::TokenStream>().unwrap())
}

fn expr(src: &str) -> Expr {
    Expr { tokens: tokens(src) }
}

#[test]
fn element_attributes_and_items() {
    let t = tokens("div(class = \"big\", value = $count) { span {} {name} @Counter(1) }");
    let (element, end, next) = Element::parse(&t, 0, 10).ok().unwrap();
    assert_eq!(end, t.len());
    assert_eq!(element.tag_name.as_str(), "div");
    assert_eq!(element.attributes.id, 10);
    assert_eq!(element.attributes.attributes.len(), 2);
    assert_eq!(element.attributes.reactive_attributes.len(), 1);
    let items = match element.children {
        Children::Items(Items { items }) => items,
        _ => panic!("items were expected"),
    };
    assert_eq!(items.len(), 3);
    match &items[0] {
        Item::Element(span) => assert_eq!(span.attributes.id, 11),
        _ => panic!("an element was expected"),
    }
    assert!(matches!(&items[1], Item::Expression(e) if *e == expr("name")));
    match &items[2] {
        Item::Component(Component { name, props, binding, for_loop_id }) => {
            assert_eq!(name, &expr("Counter"));
            assert_eq!(props.0, expr("1"));
            assert!(binding.is_none() && for_loop_id.is_none());
        }
        _ => panic!("a component was expected"),
    }
    assert_eq!(next, 12);
}

#[test]
fn element_with_a_string_tag_and_a_store() {
    let t = tokens("\"my-tag\" { $count }");
    let (element, _, _) = Element::parse(&t, 0, 0).ok().unwrap();
    assert_eq!(element.tag_name.as_str(), "my-tag");
    assert!(matches!(element.children, Children::ReactiveStore(_)));
}

#[test]
fn duplicate_attributes_are_refused() {
    let t = tokens("div(a = 1, a = 2) {}");
    assert!(Element::parse(&t, 0, 0).is_err());
    let (a, end) = Attributes::parse(&tokens("(a = 1, b = $c)"), 0, 4).ok().unwrap();
    assert_eq!((a.id, end, a.attributes.len()), (4, 1, 2));
    let (a, end) = Attributes::parse(&tokens("{}"), 0, 4).ok().unwrap();
    assert_eq!((a.attributes.len(), end), (0, 0));
}

#[test]
fn component_with_props_and_binding() {
    let t = tokens("Counter<u8>(Props { start: 1 }): counter");
    let (c, end) = Component::parse(&t, 0).ok().unwrap();
    assert_eq!(end, t.len());
    assert_eq!(c.name, expr("Counter<u8>"));
    assert_eq!(c.props.0, expr("Props { start: 1 }"));
    assert_eq!(c.binding, Some("counter".to_string()));
    let (c, _) = Component::parse(&tokens("Icon"), 0).ok().unwrap();
    assert_eq!(c.props.0, expr("()"));
    assert!(Component::parse(&tokens("Icon: 1"), 0).is_err());
}

#[test]
fn for_loop_over_a_store() {
    let t = tokens("for (i, x) in $list.iter() { li { {x} } }");
    let (f, end, next): (ForLoop, usize, u64) = ForLoop::parse(&t, 0, 5).ok().unwrap();
    assert_eq!(end, t.len());
    assert_eq!(f.pattern, expr("(i, x)"));
    assert!(matches!(&f.iterable, ForLoopIterable::Reactive(e) if *e == expr("list.iter()")));
    assert_eq!(f.id, 5);
    assert_eq!(next, 7);
    assert!(f.bindings.is_empty());
    let c = Children::parse(&t, 0).ok().unwrap();
    assert!(matches!(c.0, Children::ForLoop(_)));
}

#[test]
fn conditional_items() {
    let t = tokens("if ready { p {} } else { {\"wait\"} }");
    let (i, end, _) = If::parse(&t, 0, 0).ok().unwrap();
    assert_eq!(end, t.len());
    assert_eq!(i.condition, expr("ready"));
    assert!(i.false_branch.is_some());
    let (i, end, _) = If::parse(&tokens("if a { p {} }"), 0, 0).ok().unwrap();
    assert!(i.false_branch.is_none());
    assert_eq!(end, 3);
    assert!(If::parse(&tokens("if a { p {} } else"), 0, 0).is_err());
}

#[test]
fn view_of_context_and_element() {
    let t = tokens("context, div { }");
    let (view, next) = View::parse(&t, 1).ok().unwrap();
    assert_eq!(view.context, expr("context"));
    assert_eq!(view.element.tag_name.as_str(), "div");
    assert_eq!(next, 2);
    assert!(View::parse(&tokens("context div {}"), 0).is_err());
    assert!(View::parse(&tokens("context, div {} span {}"), 0).is_err());
}

#[test]
fn items_of_the_rest() {
    let (items, _) = Items::parse(&tokens("a {} b {}"), 0, 0).ok().unwrap();
    assert_eq!(items.items.len(), 2);
    assert!(Items::parse(&tokens("a"), 0, 0).is_err());
}
