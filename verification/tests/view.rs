use quux::tokens::{Delimiter, Expr, Spacing, TokenTree};
use quux::view::generate::server::{hashmap_tokens, is_self_closing};
use quux::view::parse::element::attributes::{Attribute, Attributes, DuplicateAttribute, Value};
use quux::view::parse::html_ident::{parse_html_ident, IdentError};
use quux::view::parse::HtmlIdent;

fn id(s: &str) -> TokenTree {
    TokenTree::Ident(s.to_string())
}

fn p(c: char) -> TokenTree {
    TokenTree::Punct(c, Spacing::Alone)
}

fn pj(c: char) -> TokenTree {
    TokenTree::Punct(c, Spacing::Joint)
}

fn lit(s: &str) -> TokenTree {
    TokenTree::Literal(s.to_string())
}

fn paren(inner: Vec<TokenTree>) -> TokenTree {
    TokenTree::Group(Delimiter::Parenthesis, inner)
}

fn brace(inner: Vec<TokenTree>) -> TokenTree {
    TokenTree::Group(Delimiter::Brace, inner)
}

fn expr(tokens: Vec<TokenTree>) -> Expr {
    Expr { tokens }
}

#[test]
fn self_closing_elements() {
    assert!(is_self_closing("br"));
    assert!(is_self_closing("BR"));
    assert!(is_self_closing("Img"));
    assert!(is_self_closing("source"));
    assert!(is_self_closing("wbr"));
    assert!(!is_self_closing("div"));
    assert!(!is_self_closing("b"));
    assert!(!is_self_closing(""));
}

#[test]
fn hashmap_tokens_of_one_pair() {
    let pairs = vec![(vec![lit("\"class\"")], vec![id("value")])];
    let r = hashmap_tokens(pairs, false);
    let expected = vec![
        id("std"),
        pj(':'),
        p(':'),
        id("collections"),
        pj(':'),
        p(':'),
        id("HashMap"),
        pj(':'),
        p(':'),
        id("from_iter"),
        paren(vec![
            id("vec"),
            p('!'),
            TokenTree::Group(
                Delimiter::Bracket,
                vec![
                    id("Some"),
                    paren(vec![paren(vec![lit("\"class\""), p(','), id("value")])]),
                    p(','),
                ],
            ),
            p('.'),
            id("into_iter"),
            paren(vec![]),
            p('.'),
            id("flatten"),
            paren(vec![]),
        ]),
    ];
    assert_eq!(r, expr(expected));
}

#[test]
fn hashmap_tokens_with_for_loop_id() {
    let pairs = vec![(vec![id("a")], vec![id("b")]), (vec![id("c")], vec![id("d")])];
    let r = hashmap_tokens(pairs, true);
    let list = match &r.tokens[10] {
        TokenTree::Group(Delimiter::Parenthesis, inner) => match &inner[2] {
            TokenTree::Group(Delimiter::Bracket, list) => quux::tokens::clone_tokens(list),
            _ => panic!("no list"),
        },
        _ => panic!("no call"),
    };
    let entry = vec![
        p('&'),
        id("if"),
        id("let"),
        id("Some"),
        paren(vec![id("id")]),
        p('='),
        id("for_loop_id"),
        brace(vec![
            id("Some"),
            paren(vec![
                id("String"),
                pj(':'),
                p(':'),
                id("from"),
                paren(vec![lit("\"data-quux-for-id\"")]),
                p(','),
                id("id"),
            ]),
        ]),
        id("else"),
        brace(vec![id("None")]),
    ];
    let mut expected = vec![
        id("Some"),
        paren(vec![paren(vec![id("a"), p(','), id("b")])]),
        p(','),
        id("Some"),
        paren(vec![paren(vec![id("c"), p(','), id("d")])]),
        p(','),
    ];
    expected.extend(entry);
    assert_eq!(list, expected);
}

#[test]
fn html_ident_with_dashes() {
    let tokens = vec![id("data"), p('-'), id("value"), p('='), lit("1")];
    let (ident, end) = HtmlIdent::parse(&tokens, 0).unwrap();
    assert_eq!(ident.as_str(), "data-value");
    assert_eq!(end, 3);
}

#[test]
fn html_ident_with_colon_and_number() {
    let tokens = vec![id("on"), p(':'), id("click")];
    let (ident, end) = HtmlIdent::parse(&tokens, 0).unwrap();
    assert_eq!(ident.as_str(), "on:click");
    assert_eq!(end, 3);
    let tokens = vec![id("h"), lit("1")];
    let (ident, _) = HtmlIdent::parse(&tokens, 0).unwrap();
    assert_eq!(ident.as_str(), "h1");
}

#[test]
fn html_ident_from_string_literal() {
    let tokens = vec![lit("\"aria-label\"")];
    let (ident, end) = HtmlIdent::parse(&tokens, 0).unwrap();
    assert_eq!(ident.as_str(), "aria-label");
    assert_eq!(end, 1);
    assert_eq!(parse_html_ident(&tokens, 0, false), Err(IdentError::ExpectedIdent));
}

#[test]
fn html_ident_errors() {
    let tokens = vec![p('=')];
    assert_eq!(HtmlIdent::parse(&tokens, 0), Err(IdentError::ExpectedIdent));
    let tokens = vec![id("two"), id("words")];
    assert_eq!(HtmlIdent::parse(&tokens, 0), Err(IdentError::UnexpectedWhitespace));
}

#[test]
fn attributes_sort_keys() {
    let mut a = Attributes::new(3);
    assert_eq!(a.insert_static("class", expr(vec![lit("\"big\"")])), None);
    assert_eq!(a.insert_static("on:click", expr(vec![id("handler")])), None);
    assert_eq!(a.insert_static("class:active-when", expr(vec![id("active")])), None);
    assert_eq!(a.attributes.len(), 1);
    assert_eq!(a.attributes[0].0, "class");
    assert_eq!(a.events.len(), 1);
    assert_eq!(a.events[0].0, "click");
    assert_eq!(a.reactive_classes.len(), 1);
    assert!(a.element_needs_id);
    let previous = a.insert_static("class", expr(vec![lit("\"small\"")]));
    assert_eq!(previous, Some(expr(vec![lit("\"big\"")])));
}

#[test]
fn reactive_attribute_reads_the_store() {
    let mut a = Attributes::new(0);
    let store = expr(vec![id("count")]);
    assert_eq!(a.insert_reactive("value", &store), None);
    assert_eq!(a.reactive_attributes.len(), 1);
    assert_eq!(a.reactive_attributes[0].1, store);
    assert_eq!(a.attributes[0].1, expr(vec![id("count"), p('.'), id("get"), paren(vec![])]));
}

#[test]
fn attributes_refuse_duplicates() {
    let list = vec![
        Attribute { key: HtmlIdent("id".to_string()), value: Value::Static(expr(vec![lit("1")])) },
        Attribute { key: HtmlIdent("id".to_string()), value: Value::Static(expr(vec![lit("2")])) },
    ];
    assert_eq!(Attributes::from_attributes(list, 1).err(), Some(DuplicateAttribute));
    let list = vec![
        Attribute { key: HtmlIdent("id".to_string()), value: Value::Static(expr(vec![lit("1")])) },
        Attribute {
            key: HtmlIdent("value".to_string()),
            value: Value::Reactive(expr(vec![id("store")])),
        },
    ];
    let a = Attributes::from_attributes(list, 1).ok().unwrap();
    assert_eq!(a.attributes.len(), 2);
    assert_eq!(a.reactive_attributes.len(), 1);
    assert_eq!(a.id, 1);
}

#[test]
fn scoped_id_only_for_reactive_elements() {
    let mut a = Attributes::new(7);
    a.insert_scoped_id();
    assert!(a.attributes.is_empty());
    a.insert_static("on:input", expr(vec![id("f")]));
    a.insert_scoped_id();
    assert_eq!(a.attributes.len(), 1);
    assert_eq!(a.attributes[0].0, "data-quux-id");
    assert_eq!(
        a.attributes[0].1,
        expr(vec![
            id("format"),
            p('!'),
            paren(vec![lit("\"{}.{}\""), p(','), p('&'), id("id"), p(','), lit("7u64")]),
        ])
    );
}

fn string_from(inner: Vec<TokenTree>) -> Vec<TokenTree> {
    vec![id("String"), pj(':'), p(':'), id("from"), paren(inner)]
}

fn map_call(list: Vec<TokenTree>) -> Vec<TokenTree> {
    vec![
        id("std"),
        pj(':'),
        p(':'),
        id("collections"),
        pj(':'),
        p(':'),
        id("HashMap"),
        pj(':'),
        p(':'),
        id("from_iter"),
        paren(vec![
            id("vec"),
            p('!'),
            TokenTree::Group(Delimiter::Bracket, list),
            p('.'),
            id("into_iter"),
            paren(vec![]),
            p('.'),
            id("flatten"),
            paren(vec![]),
        ]),
    ]
}

fn pair(key: Vec<TokenTree>, value: Vec<TokenTree>) -> Vec<TokenTree> {
    let mut inner = key;
    inner.push(p(','));
    inner.extend(value);
    vec![id("Some"), paren(vec![paren(inner)])]
}

#[test]
fn static_and_reactive_attribute_maps() {
    let mut a = Attributes::new(2);
    a.insert_static("class", expr(vec![id("c")]));
    let key = string_from(vec![lit("\"class\"")]);
    let mut list = pair(quux::tokens::clone_tokens(&key), string_from(vec![id("c")]));
    list.push(p(','));
    assert_eq!(a.static_attributes(), expr(map_call(list)));
    let mut list = pair(key, vec![id("c")]);
    list.push(p(','));
    assert_eq!(a.reactive_attributes(), expr(map_call(list)));
}

#[test]
fn attribute_tokens_of_a_reactive_element() {
    let mut a = Attributes::new(4);
    a.insert_static("on:click", expr(vec![id("f")]));
    let tokens = a.to_tokens();
    assert_eq!(&tokens.tokens[0], &id("quux"));
    assert_eq!(tokens.tokens.len(), 11);
    let scoped = vec![
        id("format"),
        p('!'),
        paren(vec![lit("\"{}.{}\""), p(','), p('&'), id("id"), p(','), lit("4u64")]),
    ];
    let key = string_from(vec![lit("\"data-quux-id\"")]);
    let mut stat = pair(quux::tokens::clone_tokens(&key), string_from(quux::tokens::clone_tokens(&scoped)));
    stat.push(p(','));
    let mut reactive = pair(key, scoped);
    reactive.push(p(','));
    let mut args = map_call(stat);
    args.push(p(','));
    args.extend(map_call(reactive));
    assert_eq!(tokens.tokens[10], paren(args));
    assert!(a.attributes.is_empty());
}

#[test]
fn html_ident_refuses_keywords() {
    let tokens = vec![id("type"), p('='), lit("1")];
    assert_eq!(HtmlIdent::parse(&tokens, 0), Err(IdentError::ExpectedIdent));
    let tokens = vec![id("data"), p('-'), id("type")];
    let (ident, end) = HtmlIdent::parse(&tokens, 0).unwrap();
    assert_eq!((ident.as_str(), end), ("data-", 2));
}

#[test]
fn macro_ident_takes_only_integer_literals() {
    let tokens = vec![id("h"), p('-'), lit("1"), p('-'), lit("2."), p('=')];
    let (ident, end) = HtmlIdent::parse(&tokens, 0).unwrap();
    assert_eq!(ident.0, "h-1-");
    assert_eq!(end, 4);
}

#[test]
fn first_form_ident_takes_dotted_numbers() {
    let tokens = vec![id("h"), p('-'), lit("2."), p('=')];
    assert_eq!(parse_html_ident(&tokens, 0, false).unwrap(), ("h-2.".to_string(), 3));
}
