use quux::tokens::{Delimiter, Expr, Spacing, TokenTree};
use quux::view::parse::component::Props;
use quux::view::parse::element::attributes::Attributes;
use quux::view::parse::grammar::{Children, Component, Element, ForLoop, ForLoopIterable, Item, Items};
use quux::view::parse::HtmlIdent;
use quux::view::parse::element::children::ReactiveStore;
use quux::view::generate::server::element::Html;
use quux::view::generate::client::Data;

fn id(s: &str) -> TokenTree {
    TokenTree::Ident(s.to_string())
}

fn expr(tokens: Vec<TokenTree>) -> Expr {
    Expr { tokens }
}

fn text(v: &[TokenTree]) -> String {
    let mut s = String::new();
    for t in v {
        match t {
            TokenTree::Ident(x) | TokenTree::Literal(x) => {
                s.push_str(x);
                s.push(' ');
            }
            TokenTree::Punct(c, Spacing::Joint) => s.push(*c),
            TokenTree::Punct(c, Spacing::Alone) => {
                s.push(*c);
                s.push(' ');
            }
            TokenTree::Group(d, inner) => {
                let (open, close) = match d {
                    Delimiter::Parenthesis => ("( ", ") "),
                    Delimiter::Brace => ("{ ", "} "),
                    Delimiter::Bracket => ("[ ", "] "),
                    Delimiter::Invisible => ("", ""),
                };
                s.push_str(open);
                s.push_str(&text(inner));
                s.push_str(close);
            }
        }
    }
    s
}

fn component(name: &str, binding: Option<&str>) -> Item {
    Item::Component(Component {
        name: expr(vec![id(name)]),
        props: Props(expr(vec![TokenTree::Group(Delimiter::Parenthesis, vec![])])),
        binding: binding.map(|b| b.to_string()),
        for_loop_id: None,
    })
}

/// `for x in <iterable> { li { @Row as row  @Cell } }`
fn for_loop(iterable: ForLoopIterable) -> ForLoop {
    let li = Element {
        tag_name: HtmlIdent("li".to_string()),
        attributes: Attributes::new(1),
        children: Children::Items(Items { items: vec![component("Row", Some("row")), component("Cell", None)] }),
    };
    ForLoop {
        pattern: expr(vec![id("x")]),
        iterable,
        item: Box::new(Item::Element(li)),
        bindings: vec![],
        id: 4,
    }
}

#[test]
fn binding_code_gathers_components_by_kind() {
    let mut f = for_loop(ForLoopIterable::Static(expr(vec![id("items")])));
    let code = text(&f.binding_code(2));
    assert_eq!(f.bindings, vec!["row".to_string()]);
    assert_eq!(
        code,
        "{ let mut internal : ( Vec < Row > , Vec < Cell > , ) = ( Vec :: new ( ) , Vec :: new ( ) , ) ; \
for components in for_loop_components . 2 { \
{ let child = components . 0 ; internal . 0 . push ( child . render ( ) . component ) ; } \
{ let child = components . 1 ; internal . 1 . push ( child . render ( ) . component ) ; } } \
row = internal . 0 ; ; } "
    );
}

#[test]
fn binding_code_shares_lists_over_a_store() {
    let mut f = for_loop(ForLoopIterable::Reactive(expr(vec![id("list")])));
    let code = text(&f.binding_code(0));
    assert!(code.ends_with(
        "row = std :: rc :: Rc :: new ( std :: cell :: RefCell :: new ( internal . 0 ) ) ; ; } "
    ));
}

#[test]
fn list_store_code_follows_pushes_and_pops() {
    let mut f = for_loop(ForLoopIterable::Reactive(expr(vec![id("list")])));
    f.binding_code(0);
    let code = text(&f.list_store_code());
    assert!(code.starts_with("quux :: store :: List :: on_change ( & list , { let id = Rc :: clone ( & id ) ; "));
    assert!(code.contains("let row = std :: rc :: Rc :: clone ( & row ) ; ; move | event | match event { "));
    assert!(code.contains(
        "Push ( _ ) => { quux :: dom :: get_reactive_for_loop_element ( * id , 4u64 , index ) . remove ( ) ; \
row . borrow_mut ( ) . push ( component . clone ( ) ) ; } , "
    ));
    assert!(code.contains("Pop ( _ , index ) => { quux :: dom :: get_reactive_for_loop_element ( * id , 4u64 , index ) . remove ( ) ; row . borrow_mut ( ) . pop ( ) ; } , } } ) "));
}

#[test]
fn static_loop_follows_no_store() {
    let f = for_loop(ForLoopIterable::Static(expr(vec![id("items")])));
    assert!(f.list_store_code().is_empty());
}

#[test]
fn reactivity_joins_both_parts() {
    let mut f = for_loop(ForLoopIterable::Reactive(expr(vec![id("list")])));
    let code = text(&f.reactivity(1));
    assert!(code.starts_with("{ let mut internal"));
    assert!(code.contains("} ; quux :: store :: List :: on_change"));
    assert!(code.ends_with(") ; "));
}

#[test]
fn element_html_formats_tag_attributes_and_content() {
    let div = Element {
        tag_name: HtmlIdent("div".to_string()),
        attributes: Attributes::new(0),
        children: Children::Items(Items { items: vec![Item::Expression(expr(vec![id("x")]))] }),
    };
    let html = text(&Html::from(&div).html);
    assert!(html.starts_with("format ! ( \"<{0} {1}>{2}</{0}>\" , \"div\" , quux :: tree :: Attributes :: new ( "));
    assert!(html.ends_with(" , String :: new ( ) + & x . to_string ( ) ) "));
}

#[test]
fn self_closing_element_has_no_content() {
    let br = Element {
        tag_name: HtmlIdent("BR".to_string()),
        attributes: Attributes::new(0),
        children: Children::Items(Items { items: vec![] }),
    };
    let html = text(&Html::from(&br).html);
    assert!(html.starts_with("format ! ( \"<{} {} />\" , \"BR\" , quux :: tree :: Attributes :: new ( "));
    assert!(!html.contains("+ &"));
}

#[test]
fn store_content_reads_current_value() {
    let p = Element {
        tag_name: HtmlIdent("p".to_string()),
        attributes: Attributes::new(0),
        children: Children::ReactiveStore(ReactiveStore(Box::new(expr(vec![id("count")])))),
    };
    let html = text(&Html::from(&p).html);
    assert!(html.ends_with(" , count . get ( ) ) "));
}

#[test]
fn component_html_renders_and_records_node() {
    let item = Item::Component(Component {
        name: expr(vec![id("Counter")]),
        props: Props(expr(vec![TokenTree::Group(Delimiter::Parenthesis, vec![])])),
        binding: None,
        for_loop_id: Some(3),
    });
    let html = text(&Html::from_item(&item).html);
    assert!(html.starts_with("{ let component = < Counter as quux :: component :: Component > :: init ( ( ) ) ; component_id += 1 ; let id = component_id ; "));
    assert!(html.contains("for_loop_id : Some ( 3u64 ) , .. Default :: default ( ) } ; "));
    assert!(html.ends_with("render_context . clone ( ) , } ) ; rendered_component . html } "));
}

#[test]
fn event_data_listens_and_follows_classes() {
    let mut a = Attributes::new(5);
    a.events.push(("click".to_string(), expr(vec![id("f")])));
    a.reactive_classes.push(expr(vec![id("c")]));
    let mut data = Data { components: vec![], reactivity: vec![], for_loops: vec![] };
    data.add_event_data(a);
    assert_eq!(data.reactivity.len(), 2);
    let listener = text(&data.reactivity[0]);
    assert!(listener.starts_with("let id = Rc :: clone ( & id ) ; let closure = wasm_bindgen"));
    assert!(listener.contains("quux :: dom :: get_reactive_element ( * id , 5u64 ) . add_event_listener_with_callback ( \"click\" , "));
    let class = text(&data.reactivity[1]);
    assert!(class.starts_with("let ( store , mapping , class_name ) = c ; let store = quux :: store :: Store :: clone ( store ) ; "));
    assert!(class.ends_with("if mapping ( std :: clone :: Clone :: clone ( current ) ) { class_list . add_1 ( class_name ) . unwrap ( ) ; } else { class_list . remove_1 ( class_name ) . unwrap ( ) ; } ) "));
}

#[test]
fn client_code_takes_back_components_and_follows_stores() {
    let p = Element {
        tag_name: HtmlIdent("p".to_string()),
        attributes: Attributes::new(2),
        children: Children::ReactiveStore(ReactiveStore(Box::new(expr(vec![id("count")])))),
    };
    let div = Element {
        tag_name: HtmlIdent("div".to_string()),
        attributes: Attributes::new(1),
        children: Children::Items(Items { items: vec![component("Counter", Some("c")), Item::Element(p)] }),
    };
    let view = quux::view::parse::View { context: expr(vec![id("context")]), element: div };
    let code = text(&quux::view::generate::client::generate(view));
    assert!(code.starts_with("use wasm_bindgen :: JsCast ; use quux :: errors :: MapInternal ; use std :: rc :: Rc ; use quux :: component :: Component ; let children = context . components ; let mut for_loop_components = context . for_loop_components ; let id = Rc :: new ( context . id ) ; "));
    assert!(code.contains("{ let child = children . 0 ; let component = child . render ( ) . component ; c = component ; } ; ; "));
    assert!(code.contains("{ let id = Rc :: clone ( & id ) ; count . on_change ( move | _ , new | { let element = quux :: dom :: get_reactive_element ( * id , 2u64 ) ; "));
    assert!(code.ends_with("} ; quux :: view :: output :: Client :: new ( self ) "));
}

#[test]
fn conditional_html_chooses_a_branch() {
    let choice = quux::view::parse::grammar::If {
        condition: expr(vec![id("shown")]),
        true_branch: Box::new(Item::Expression(expr(vec![id("a")]))),
        false_branch: None,
    };
    assert_eq!(
        text(&choice.html().html),
        "if shown { a . to_string ( ) } else { String :: new ( ) } "
    );
}

#[test]
fn insert_attribute_returns_previous_value() {
    let mut e = Element {
        tag_name: HtmlIdent("div".to_string()),
        attributes: Attributes::new(0),
        children: Children::Items(Items { items: vec![] }),
    };
    assert!(e.insert_attribute("class", expr(vec![id("a")])).is_none());
    let previous = e.insert_attribute("class", expr(vec![id("b")])).unwrap();
    assert_eq!(text(&previous.tokens), "a ");
}
