use quux::html::{get_html_string, Attribute, AttributeValue, Attributes};
use quux::tokens::{Delimiter, Expr, Spacing, TokenTree};

fn expr(tokens: Vec<TokenTree>) -> Expr {
    Expr { tokens }
}

fn id(s: &str) -> TokenTree {
    TokenTree::Ident(s.to_string())
}

#[test]
fn html_string_lists_keys() {
    let keys = vec!["class".to_string(), "id".to_string()];
    assert_eq!(get_html_string(keys, "div"), "<div class=\"{}\"id=\"{}\">{}</div>");
    assert_eq!(get_html_string(vec![], "p"), "<p >{}</p>");
}

#[test]
fn event_listener_makes_element_reactive() {
    let list = vec![
        Attribute { key: "on:click".to_string(), value: AttributeValue::Static(expr(vec![id("f")])) },
        Attribute { key: "class".to_string(), value: AttributeValue::Static(expr(vec![id("c")])) },
    ];
    let a = Attributes::from_attributes(list);
    assert!(a.reactive);
    assert_eq!(a.keys, vec!["class".to_string()]);
    assert_eq!(a.values, vec![expr(vec![id("c")])]);
}

#[test]
fn store_attribute_takes_current_value() {
    let mut a = Attributes::new();
    a.add_attribute(Attribute {
        key: "value".to_string(),
        value: AttributeValue::Reactive(expr(vec![id("count")])),
    });
    assert_eq!(a.keys, vec!["value".to_string()]);
    assert_eq!(
        a.values,
        vec![expr(vec![
            id("count"),
            TokenTree::Punct('.', Spacing::Alone),
            id("get"),
            TokenTree::Group(Delimiter::Parenthesis, vec![]),
        ])]
    );
    assert_eq!(a.reactive_attributes.len(), 1);
    assert_eq!(a.reactive_attributes[0].0, "value");
}

#[test]
fn scoped_id_added_when_reactive() {
    let mut a = Attributes::new();
    a.add_scoped_id("x");
    assert!(a.keys.is_empty());
    a.add_static_value("on:input".to_string(), expr(vec![id("f")]));
    a.add_scoped_id("x");
    assert_eq!(a.keys, vec!["data-quux-scoped-id".to_string()]);
    assert_eq!(a.values, vec![expr(vec![TokenTree::Literal("\"x\"".to_string())])]);
}
