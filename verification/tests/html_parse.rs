use quux::html::parse::{
    parse_attributes, parse_props, Children, Component, Element, Item, ParseError, Prop,
};
use quux::html::{Attribute, AttributeValue};
use quux::tokens::{Delimiter, Expr, Spacing, TokenTree};

fn convert(stream: proc_macro2::TokenStream) -> Vec<TokenTree> {
    stream
        .into_iter()
        .map(|tree| match tree {
            proc_macro2::TokenTree::Group(g) => TokenTree::Group(
                match g.delimiter() {
                    proc_macro2::Delimiter::Parenthesis => Delimiter::Parenthesis,
                    proc_macro2::Delimiter::Brace => Delimiter::Brace,
                    proc_macro2::Delimiter::Bracket => Delimiter::Bracket,
                    proc_macro2::Delimiter::None => Delimiter::Invisible,
                },
                convert(g.stream()),
            ),
            proc_macro2::TokenTree::Ident(i) => TokenTree::Ident(i.to_string()),
            proc_macro2::TokenTree::Punct(p) => TokenTree::Punct(
                p.as_char(),
                match p.spacing() {
                    proc_macro2::Spacing::Alone => Spacing::Alone,
                    proc_macro2::Spacing::Joint => Spacing::Joint,
                },
            ),
            proc_macro2::TokenTree::Literal(l) => TokenTree::Literal(l.to_string()),
        })
        .collect()
}

fn tokens(src: &str) -> Vec<TokenTree> {
    convert(src.parse::<proc_macro2::TokenStream>().unwrap())
}

fn expr(src: &str) -> Expr {
    Expr { tokens: tokens(src) }
}

fn static_value(a: &Attribute) -> &Expr {
    match &a.value {
        AttributeValue::Static(e) => e,
        AttributeValue::Reactive(_) => panic!("a static value was expected"),
    }
}

#[test]
fn attribute() {
    let t = tokens("a..1.--::-=\"VALUE\"");
    let (attribute, end) = Attribute::parse(&t, 0).ok().unwrap();
    assert_eq!(attribute.key, "a..1.--::-");
    assert_eq!(static_value(&attribute), &expr("\"VALUE\""));
    assert_eq!(end, t.len());
}

#[test]
fn attribute_key_with_an_integer() {
    let t = tokens("a..1 .--::-=\"VALUE\"");
    let (attribute, _) = Attribute::parse(&t, 0).ok().unwrap();
    assert_eq!(attribute.key, "a..1.--::-");
}

#[test]
fn attribute_value_bound_to_a_store() {
    let t = tokens("value = $count");
    let (attribute, _) = Attribute::parse(&t, 0).ok().unwrap();
    assert_eq!(attribute.key, "value");
    match attribute.value {
        AttributeValue::Reactive(e) => assert_eq!(e, expr("count")),
        AttributeValue::Static(_) => panic!("a store was expected"),
    }
}

#[test]
fn attribute_list_takes_closures_and_generics() {
    let t = tokens("on:click = |a, b| a + b, size = Vec::<u8, A>::new(), last = 1,");
    let list = parse_attributes(&t).ok().unwrap();
    assert_eq!(list.len(), 3);
    assert_eq!(list[0].key, "on:click");
    assert_eq!(static_value(&list[0]), &expr("|a, b| a + b"));
    assert_eq!(static_value(&list[1]), &expr("Vec::<u8, A>::new()"));
    assert_eq!(static_value(&list[2]), &expr("1"));
}

#[test]
fn attribute_list_errors() {
    assert_eq!(parse_attributes(&tokens("a = 1 b = 2")).err(), Some(ParseError::ExpectedComma));
    assert_eq!(parse_attributes(&tokens("a 1")).err(), Some(ParseError::ExpectedEquals));
    assert_eq!(parse_attributes(&tokens("a =")).err(), Some(ParseError::ExpectedExpression));
    assert_eq!(parse_attributes(&tokens("= 1")).err(), Some(ParseError::ExpectedIdent));
    assert_eq!(parse_attributes(&tokens("a b = 1")).err(), Some(ParseError::UnexpectedWhitespace));
}

#[test]
fn props_are_read() {
    let list = parse_props(&tokens("start = 1, step = f(2, 3)")).ok().unwrap();
    assert_eq!(list.len(), 2);
    assert_eq!(list[0].key, "start");
    assert_eq!(list[1].value, expr("f(2, 3)"));
    let (prop, end) = Prop::parse(&tokens("x = y"), 0).ok().unwrap();
    assert_eq!((prop.key.as_str(), end), ("x", 3));
    assert_eq!(parse_props(&tokens("type = 1")).err(), Some(ParseError::ExpectedIdent));
}

#[test]
fn element_with_attributes_and_items() {
    let t = tokens("div(class = \"big\") { span { {name} } @Counter(start = 1) }");
    let (element, end) = Element::parse(&t, 0).ok().unwrap();
    assert_eq!(end, t.len());
    assert_eq!(element.tag_name, "div");
    assert_eq!(element.attributes.len(), 1);
    let items = match element.children {
        Children::Children(items) => items,
        Children::ReactiveStore(_) => panic!("items were expected"),
    };
    assert_eq!(items.len(), 2);
    match &items[0] {
        Item::Element(span) => {
            assert_eq!(span.tag_name, "span");
            match &span.children {
                Children::Children(inner) => match &inner[0] {
                    Item::Expression(e) => assert_eq!(e, &expr("name")),
                    _ => panic!("an expression was expected"),
                },
                Children::ReactiveStore(_) => panic!("items were expected"),
            }
        }
        _ => panic!("an element was expected"),
    }
    match &items[1] {
        Item::Component(Component { name, props }) => {
            assert_eq!(name, "Counter");
            assert_eq!(props.len(), 1);
        }
        _ => panic!("a component was expected"),
    }
}

#[test]
fn element_showing_a_store() {
    let t = tokens("p { $count }");
    let (element, _) = Element::parse(&t, 0).ok().unwrap();
    match element.children {
        Children::ReactiveStore(e) => assert_eq!(e, expr("count")),
        Children::Children(_) => panic!("a store was expected"),
    }
}

#[test]
fn element_errors() {
    assert_eq!(Element::parse(&tokens("div(a = 1)"), 0).err(), Some(ParseError::ExpectedBraces));
    assert_eq!(Element::parse(&tokens("div { 1 }"), 0).err(), Some(ParseError::InvalidToken));
    assert_eq!(Element::parse(&tokens("div { { } }"), 0).err(), Some(ParseError::ExpectedExpression));
    assert_eq!(Element::parse(&tokens("p { $ }"), 0).err(), Some(ParseError::ExpectedExpression));
    assert_eq!(Item::parse(&tokens(""), 0).err(), Some(ParseError::InvalidToken));
}

#[test]
fn children_of_items() {
    let c = Children::parse(&tokens("br {} @Icon")).ok().unwrap();
    match c {
        Children::Children(items) => {
            assert_eq!(items.len(), 2);
            assert!(matches!(&items[1], Item::Component(Component { props, .. }) if props.is_empty()));
        }
        Children::ReactiveStore(_) => panic!("items were expected"),
    }
}
