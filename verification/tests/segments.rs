use quux::segment::{
    http_path_segments, parse_failure, parse_segment, split_from, url_path_segments,
    walk_segments, Capture, Kind, ParseFailure, Segment,
};

#[test]
fn parse_unsigned_segments() {
    assert_eq!(parse_segment(Kind::U32, "16"), Some(Capture::U32(16)));
    assert_eq!(parse_segment(Kind::U32, "+16"), Some(Capture::U32(16)));
    assert_eq!(parse_segment(Kind::U32, "4294967296"), None);
    assert_eq!(parse_segment(Kind::U32, "-1"), None);
    assert_eq!(parse_segment(Kind::U32, ""), None);
    assert_eq!(parse_segment(Kind::U32, "NaN"), None);
    assert_eq!(
        parse_segment(Kind::U64, "18446744073709551615"),
        Some(Capture::U64(18446744073709551615))
    );
    assert_eq!(parse_segment(Kind::U64, "18446744073709551616"), None);
}

#[test]
fn parse_signed_segments() {
    assert_eq!(parse_segment(Kind::I32, "-2147483648"), Some(Capture::I32(-2147483648)));
    assert_eq!(parse_segment(Kind::I32, "2147483648"), None);
    assert_eq!(parse_segment(Kind::I64, "-5"), Some(Capture::I64(-5)));
    assert_eq!(parse_segment(Kind::I64, "-"), None);
}

#[test]
fn parse_text_segments() {
    assert_eq!(parse_segment(Kind::Text, "any thing"), Some(Capture::Text("any thing".to_string())));
    assert_eq!(parse_segment(Kind::Text, ""), Some(Capture::Text(String::new())));
}

#[test]
fn split_keeps_empty_parts() {
    assert_eq!(split_from("/a//b/", 1, '/'), vec!["a", "", "b", ""]);
    assert_eq!(split_from("abc", 0, '/'), vec!["abc"]);
    assert_eq!(split_from("", 0, '/'), vec![""]);
}

#[test]
fn http_segments_drop_one_trailing_slash() {
    assert_eq!(http_path_segments("/hello/16"), vec!["hello", "16"]);
    assert_eq!(http_path_segments("/hello/16/"), vec!["hello", "16"]);
    assert_eq!(http_path_segments("/"), Vec::<String>::new());
    assert_eq!(http_path_segments("/a//"), vec!["a", ""]);
    assert_eq!(http_path_segments(""), Vec::<String>::new());
}

#[test]
fn url_segments_keep_the_trailing_empty_segment() {
    assert_eq!(url_path_segments("/hello/"), Some(vec!["hello".to_string(), String::new()]));
    assert_eq!(url_path_segments("/"), Some(vec![String::new()]));
    assert_eq!(url_path_segments("relative"), None);
}

#[test]
fn walk_reads_dynamic_segments() {
    let patterns = vec![Segment::Static("hello".to_string()), Segment::Dynamic(Kind::U32)];
    let segments = vec!["hello".to_string(), "16".to_string()];
    assert_eq!(walk_segments(&patterns, &segments).ok(), Some(vec![Capture::U32(16)]));
    let segments = vec!["hello".to_string(), "x".to_string()];
    assert_eq!(walk_segments(&patterns, &segments).err(), Some(Some((1, ParseFailure::InvalidDigit))));
    let segments = vec!["bye".to_string(), "16".to_string()];
    assert_eq!(walk_segments(&patterns, &segments).err(), Some(None));
    let segments = vec!["hello".to_string()];
    assert_eq!(walk_segments(&patterns, &segments).err(), Some(None));
}

#[test]
fn parse_failures_tell_why() {
    assert_eq!(parse_failure(Kind::U32, ""), ParseFailure::Empty);
    assert_eq!(parse_failure(Kind::U32, "+"), ParseFailure::InvalidDigit);
    assert_eq!(parse_failure(Kind::U32, "-1"), ParseFailure::InvalidDigit);
    assert_eq!(parse_failure(Kind::U32, "4294967296"), ParseFailure::PosOverflow);
    assert_eq!(parse_failure(Kind::I32, "-2147483649"), ParseFailure::NegOverflow);
    assert_eq!(parse_failure(Kind::I64, "-"), ParseFailure::InvalidDigit);
    assert_eq!(parse_failure(Kind::U64, "1x"), ParseFailure::InvalidDigit);
    assert_eq!(
        "4294967296".parse::<u32>().unwrap_err().kind(),
        &std::num::IntErrorKind::PosOverflow
    );
}
