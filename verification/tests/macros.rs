use quux::macros::{client, server};
use quux::tokens::{Delimiter, Spacing, TokenTree};

fn id(s: &str) -> TokenTree {
    TokenTree::Ident(s.to_string())
}

fn wasm() -> Vec<TokenTree> {
    vec![
        id("target_arch"),
        TokenTree::Punct('=', Spacing::Alone),
        TokenTree::Literal("\"wasm32\"".to_string()),
    ]
}

fn item() -> Vec<TokenTree> {
    vec![id("fn"), id("f"), TokenTree::Group(Delimiter::Parenthesis, vec![]), TokenTree::Group(Delimiter::Brace, vec![])]
}

#[test]
fn server_attribute_keeps_item_off_wasm() {
    let mut expected = vec![
        TokenTree::Punct('#', Spacing::Alone),
        TokenTree::Group(
            Delimiter::Bracket,
            vec![
                id("cfg"),
                TokenTree::Group(
                    Delimiter::Parenthesis,
                    vec![id("not"), TokenTree::Group(Delimiter::Parenthesis, wasm())],
                ),
            ],
        ),
    ];
    expected.extend(item());
    assert_eq!(server(&item()), expected);
}

#[test]
fn client_attribute_keeps_item_on_wasm() {
    let mut expected = vec![
        TokenTree::Punct('#', Spacing::Alone),
        TokenTree::Group(
            Delimiter::Bracket,
            vec![id("cfg"), TokenTree::Group(Delimiter::Parenthesis, wasm())],
        ),
    ];
    expected.extend(item());
    assert_eq!(client(&item()), expected);
}

#[test]
fn element_declaration_names_the_type_and_tag() {
    let r = quux::macros::element_declaration("Div");
    assert_eq!(r.len(), 23);
    assert_eq!(r[4], id("Div"));
    assert_eq!(r[14], TokenTree::Punct('>', Spacing::Alone));
    match &r[22] {
        TokenTree::Group(Delimiter::Brace, body) => {
            assert_eq!(body[0], id("fn"));
            assert_eq!(body[1], id("get_tag_name"));
            assert_eq!(
                body[9],
                TokenTree::Group(Delimiter::Brace, vec![TokenTree::Literal("\"div\"".to_string())])
            );
        }
        _ => panic!("the body of the impl was expected"),
    }
}

fn route_text(v: &[TokenTree]) -> String {
    let mut s = String::new();
    for t in v {
        match t {
            TokenTree::Ident(x) | TokenTree::Literal(x) => {
                s.push_str(x);
                s.push(' ');
            }
            TokenTree::Punct(c, Spacing::Joint) => s.push(*c),
            TokenTree::Punct(c, Spacing::Alone) => {
                s.push(*c);
                s.push(' ');
            }
            TokenTree::Group(d, inner) => {
                let (open, close) = match d {
                    Delimiter::Parenthesis => ("( ", ") "),
                    Delimiter::Brace => ("{ ", "} "),
                    Delimiter::Bracket => ("[ ", "] "),
                    Delimiter::Invisible => ("", ""),
                };
                s.push_str(open);
                s.push_str(&route_text(inner));
                s.push_str(close);
            }
        }
    }
    s
}

fn alone(c: char) -> TokenTree {
    TokenTree::Punct(c, Spacing::Alone)
}

fn word(s: &str) -> TokenTree {
    TokenTree::Ident(s.to_string())
}

#[test]
fn routes_become_enum_variants_and_conversions() {
    let tokens = vec![word("Home"), alone(','), word("Blog"), alone('<'), word("u8"), alone('>'), alone(',')];
    let code = route_text(&quux::macros::routes::routes(&tokens).unwrap());
    assert!(code.starts_with("# [ derive ( quux :: prelude :: Serialize , quux :: prelude :: Deserialize , Clone ) ] pub enum Routes { Route0 ( Home ) , Route1 ( Blog < u8 > ) } "));
    assert!(code.contains("impl From < Home > for Routes { fn from ( value : Home ) -> Self { Self :: Route0 ( value ) } } "));
    assert!(code.contains("impl From < Blog < u8 > > for Routes { fn from ( value : Blog < u8 > ) -> Self { Self :: Route1 ( value ) } } "));
    assert!(code.contains("match self { Self :: Route0 ( component ) => { let mut tree = quux :: component :: Component :: render ( component , quux :: context :: Context :: new ( ) ) ; quux :: tree :: Item :: insert_id ( & mut tree , 0 ) ; quux :: tree :: Item :: hydrate ( & mut tree ) ; } , Self :: Route1"));
    assert!(code.ends_with("} } ; } } "));
}

#[test]
fn no_routes_give_an_empty_enum() {
    let code = route_text(&quux::macros::routes::routes(&vec![]).unwrap());
    assert_eq!(
        code,
        "# [ derive ( quux :: prelude :: Serialize , quux :: prelude :: Deserialize , Clone ) ] pub enum Routes { } impl quux :: component :: Routes for Routes { # [ quux :: prelude :: client ] fn hydrate ( self ) { match self { } ; } } "
    );
}

#[test]
fn routes_need_commas_between_types() {
    assert!(quux::macros::routes::routes(&vec![word("Home"), word("Blog")]).is_err());
}

#[test]
fn components_become_one_enum_with_the_script_last() {
    let tokens = vec![alone('$'), word("Counter"), alone(','), word("Clock")];
    let (code, record) = quux::macros::init_components::init_components(&tokens).unwrap();
    assert!(record);
    let code = route_text(&code);
    assert!(code.starts_with("# [ derive ( Serialize , Deserialize , Clone , Debug ) ] pub enum ComponentEnum { Component0 ( Counter ) , Component1 ( Clock ) , Component2 ( quux :: initialisation_script :: InitialisationScript < ComponentEnum > ) } "));
    assert!(code.contains("impl quux :: component :: Enum for ComponentEnum { fn render ( self , context : render :: Context < Self > ) -> quux :: component :: EnumRenderOutput < Self > { match self { Self :: Component0 ( component ) => component . render ( context ) . into ( ) , "));
    assert!(code.contains("impl From < Counter > for ComponentEnum { fn from ( value : Counter ) -> Self { Self :: Component0 ( value ) } } "));
    assert!(code.contains("impl TryFrom < ComponentEnum > for Counter { type Error = ( ) ; fn try_from ( value : ComponentEnum ) -> Result < Self , Self :: Error > { if let ComponentEnum :: Component0 ( component ) = value { Ok ( component ) } else { Err ( ( ) ) } } } "));
    assert!(code.ends_with("Self :: Component2 ( value ) } } impl TryFrom < ComponentEnum > for quux :: initialisation_script :: InitialisationScript < ComponentEnum > { type Error = ( ) ; fn try_from ( value : ComponentEnum ) -> Result < Self , Self :: Error > { if let ComponentEnum :: Component2 ( component ) = value { Ok ( component ) } else { Err ( ( ) ) } } } "));
}

#[test]
fn components_without_dollar_ask_no_record() {
    let (code, record) = quux::macros::init_components::init_components(&vec![word("Counter")]).unwrap();
    assert!(!record);
    assert!(route_text(&code).contains("Component1 ( quux :: initialisation_script"));
}

#[test]
fn components_need_commas_between_types() {
    assert!(quux::macros::init_components::init_components(&vec![word("Counter"), word("Clock")]).is_err());
}
