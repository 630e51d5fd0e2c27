use quux::element::{escape, Element};

#[test]
fn escape_replaces_markup_characters() {
    assert_eq!(escape("<b>\"hi\"</b>"), "&lt;b&gt;&quot;hi&quot;&lt;/b&gt;");
    assert_eq!(escape("plain & simple"), "plain & simple");
    assert_eq!(escape(""), "");
}

#[test]
fn escape_output_has_no_markup() {
    let out = escape("a<b>c\"d");
    assert!(!out.contains('<') && !out.contains('>') && !out.contains('"'));
}

#[test]
fn element_renders_attributes_and_children() {
    let child = Element {
        tag_name: "span".to_string(),
        attributes: vec![],
        children: vec![],
    };
    let e = Element {
        tag_name: "div".to_string(),
        attributes: vec![
            ("class".to_string(), "big".to_string()),
            ("title".to_string(), "a \"quote\"".to_string()),
        ],
        children: vec![child],
    };
    assert_eq!(
        e.as_string(),
        "<div class=\"big\" title=\"a &quot;quote&quot;\" ><span ></span></div>"
    );
}

#[test]
fn element_named_lowercases_the_tag() {
    let e = Element::named("BR");
    assert_eq!(e.get_tag_name(), "br");
    assert!(e.get_attributes().is_empty());
    assert!(e.get_children().is_empty());
    assert_eq!(e.as_string(), "<br ></br>");
}
