use quux::html::client::{self, Data as ClientData};
use quux::html::parse::{Children, Component, Element, Item, Prop};
use quux::html::server::{self, Data as ServerData};
use quux::html::{generate, Attribute, AttributeValue};
use quux::tokens::{Delimiter, Expr, Spacing, TokenTree};

fn id(s: &str) -> TokenTree {
    TokenTree::Ident(s.to_string())
}

fn expr(tokens: Vec<TokenTree>) -> Expr {
    Expr { tokens }
}

fn text(v: &[TokenTree]) -> String {
    let mut s = String::new();
    for t in v {
        match t {
            TokenTree::Ident(x) | TokenTree::Literal(x) => {
                s.push_str(x);
                s.push(' ');
            }
            TokenTree::Punct(c, Spacing::Joint) => s.push(*c),
            TokenTree::Punct(c, Spacing::Alone) => {
                s.push(*c);
                s.push(' ');
            }
            TokenTree::Group(d, inner) => {
                let (open, close) = match d {
                    Delimiter::Parenthesis => ("( ", ") "),
                    Delimiter::Brace => ("{ ", "} "),
                    Delimiter::Bracket => ("[ ", "] "),
                    Delimiter::Invisible => ("", ""),
                };
                s.push_str(open);
                s.push_str(&text(inner));
                s.push_str(close);
            }
        }
    }
    s
}

fn attribute(key: &str, value: AttributeValue) -> Attribute {
    Attribute { key: key.to_string(), value }
}

/// `div { p { $count } @Counter(start = 1) span(on:click = f) {} }`
fn tree() -> Element {
    let p = Element {
        tag_name: "p".to_string(),
        attributes: vec![],
        children: Children::ReactiveStore(expr(vec![id("count")])),
    };
    let counter = Component {
        name: "Counter".to_string(),
        props: vec![Prop { key: "start".to_string(), value: expr(vec![TokenTree::Literal("1".to_string())]) }],
    };
    let span = Element {
        tag_name: "span".to_string(),
        attributes: vec![attribute("on:click", AttributeValue::Static(expr(vec![id("f")])))],
        children: Children::Children(vec![]),
    };
    Element {
        tag_name: "div".to_string(),
        attributes: vec![],
        children: Children::Children(vec![Item::Element(p), Item::Component(counter), Item::Element(span)]),
    }
}

#[test]
fn event_attributes_add_listeners() {
    let mut data = ClientData { components: vec![], reactivity: vec![], scoped_id: "3".to_string() };
    data.add_event_data(vec![
        attribute("on:click", AttributeValue::Static(expr(vec![id("f")]))),
        attribute("class", AttributeValue::Static(expr(vec![id("c")]))),
        attribute("on:input", AttributeValue::Reactive(expr(vec![id("s")]))),
    ]);
    assert_eq!(data.reactivity.len(), 1);
    let code = text(&data.reactivity[0]);
    assert!(code.starts_with("let scope_id = Rc :: clone ( & scope_id ) ; "));
    assert!(code.contains("Closure :: < dyn FnMut ( ) > :: new ( f ) ; "));
    assert!(code.contains("get_reactive_element ( & * scope_id , \"3\" ) "));
    assert!(code.contains("add_event_listener_with_callback ( \"click\" , "));
    assert!(code.ends_with("closure . forget ( ) ; "));
}

#[test]
fn store_follows_element() {
    let mut data = ClientData { components: vec![], reactivity: vec![], scoped_id: "7".to_string() };
    data.add_store_data(&expr(vec![id("count")]));
    assert_eq!(data.reactivity.len(), 1);
    let code = text(&data.reactivity[0]);
    assert!(code.contains("shared :: Store :: on_change ( & mut count , move | _ , new | { "));
    assert!(code.contains("\"7\""));
}

#[test]
fn client_numbers_elements_in_order() {
    let (data, next) = ClientData::from_element(&tree(), 0);
    assert_eq!(next, 3);
    assert_eq!(data.scoped_id, "0");
    assert_eq!(data.components, vec!["Counter".to_string()]);
    assert_eq!(data.reactivity.len(), 2);
    assert!(text(&data.reactivity[0]).contains("\"1\""));
    assert!(text(&data.reactivity[1]).contains("\"2\""));
    assert!(text(&data.reactivity[1]).contains("\"click\""));
}

#[test]
fn client_code_takes_back_components() {
    let code = text(&client::generate(&tree()));
    assert!(code.starts_with("use std :: rc :: Rc ; "));
    assert!(code.contains("let mut component : Counter = shared :: postcard :: from_bytes"));
    assert!(code.contains("} ; { "));
}

#[test]
fn server_element_formats_children() {
    let element = Element {
        tag_name: "div".to_string(),
        attributes: vec![attribute("class", AttributeValue::Static(expr(vec![id("c")])))],
        children: Children::Children(vec![Item::Expression(expr(vec![id("x")]))]),
    };
    let (data, next, k) = ServerData::from_element(element, 5, 0, &vec![]);
    assert_eq!((next, k), (6, 0));
    assert_eq!(
        text(&data.html),
        "format ! ( \"<div class=\\\"{}\\\">{}</div>\" , c , String :: new ( ) + & x . to_string ( ) ) "
    );
    assert!(data.component_nodes.is_empty());
}

#[test]
fn server_reactive_elements_carry_scoped_id() {
    let suffixes = vec!["a".to_string()];
    let (data, next, k) = ServerData::from_element(tree(), 0, 0, &suffixes);
    assert_eq!((next, k), (3, 1));
    let html = text(&data.html);
    assert!(html.contains("\"<p data-quux-scoped-id=\\\"{}\\\">{}</p>\" , \"1\" , shared :: Store :: get ( & count ) "));
    assert!(html.contains("\"<span data-quux-scoped-id=\\\"{}\\\">{}</span>\" , \"2\" , String :: new ( ) "));
    assert!(html.contains("rendered_component_a . html"));
    assert_eq!(data.component_constructors.len(), 1);
    assert!(text(&data.component_constructors[0])
        .starts_with("let component_a = < Counter as shared :: Component > :: init ( < Counter as shared :: Component > :: Props { start : 1 } ) ; "));
    assert_eq!(data.component_nodes.len(), 1);
}

#[test]
fn both_builds_number_alike() {
    let (_, client_next) = ClientData::from_element(&tree(), 4);
    let (_, server_next, _) = ServerData::from_element(tree(), 4, 0, &vec!["a".to_string()]);
    assert_eq!(client_next, server_next);
    assert_eq!(client_next, 7);
}

#[test]
fn server_code_renders_root() {
    let code = text(&server::generate(tree(), 0, &vec!["a".to_string()]));
    assert!(code.starts_with("let scope_id = context . id ; let component_a = "));
    assert!(code.contains("data-quux-scope-id=\\\"{}\\\""));
    assert!(code.contains("children : vec ! [ shared :: ClientComponentNode { "));
}

#[test]
fn view_code_keeps_builds_apart() {
    let code = text(&generate(tree(), 0, &vec!["a".to_string()]));
    assert!(code.starts_with("shared :: cfg_if :: cfg_if ! { if # [ cfg ( target_arch = \"wasm32\" ) ] { { use std :: rc :: Rc ; "));
    assert!(code.contains("} } else { { let scope_id = context . id ; "));
}
