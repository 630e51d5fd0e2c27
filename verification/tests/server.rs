use quux::handler::{Context, Either, Handler, Method, Request};
use quux::segment::{Capture, Kind, ParseFailure};
use quux::server::matcher::MatchError;
use quux::server::path::{Error, SegmentError};
use quux::server::{path, server};

fn request(method: &str, uri: &str) -> Context<()> {
    Context::new(Request::new(Method::from_name(method), uri).unwrap())
}

#[test]
fn path_path_works() {
    let mut handler = path(Method::from_name("GET"))
        .static_segment("hello")
        .dynamic_segment(Kind::U32);

    let response = handler.handle(request("GET", "http://localhost:3000/hello/16"));
    assert_eq!(response.unwrap().output, vec![Capture::U32(16)]);

    let response = handler.handle(request("GET", "http://localhost:3000/hello/NaN"));
    assert!(response.is_err());
}

#[test]
fn path_methods_work() {
    let mut handler = path(Method::from_name("GET"));

    let response = handler.handle(request("POST", "http://localhost:3000"));
    assert!(response.is_err());

    let response = handler.handle(request("GET", "http://localhost:3000/"));
    assert!(response.is_ok());
}

#[test]
fn matcher_path_works() {
    let mut handler = quux::server::matcher::path::<()>(Method::from_name("GET"))
        .static_segment("hello")
        .dynamic_segment(Kind::U32);

    let response = handler.handle(request("GET", "http://localhost:3000/hello/16"));
    assert_eq!(response.unwrap().output, ((), vec![Capture::U32(16)]));

    let response = handler.handle(request("GET", "http://localhost:3000/hello/NaN"));
    assert!(response.is_err());
}

#[test]
fn matcher_methods_work() {
    let mut handler = quux::server::matcher::path::<()>(Method::from_name("GET"));

    let response = handler.handle(request("POST", "http://localhost:3000"));
    assert!(response.is_err());

    let response = handler.handle(request("GET", "http://localhost:3000"));
    assert!(response.is_ok());
}

#[test]
fn matching_path_works() {
    let mut handler = quux::matching::path::path::<()>()
        .static_segment("hello")
        .dynamic_segment(Kind::U32);

    let response = handler.handle(request("GET", "http://localhost:3000/hello/16"));
    assert_eq!(response.unwrap().output, ((), vec![Capture::U32(16)]));

    let response = handler.handle(request("GET", "http://localhost:3000/hello/NaN"));
    assert!(response.is_err());
}

#[test]
fn path_reports_the_unreadable_segment() {
    let mut handler = path(Method::from_name("GET"))
        .static_segment("hello")
        .dynamic_segment(Kind::U32);
    let response = handler.handle(request("GET", "http://localhost:3000/hello/NaN"));
    assert_eq!(response.unwrap_err().output, Error::Fatal(SegmentError { position: 1, reason: ParseFailure::InvalidDigit }));
}

#[test]
fn path_rejects_other_paths_and_extra_segments() {
    let mut handler = path(Method::from_name("GET")).static_segment("hello");
    let response = handler.handle(request("GET", "http://localhost:3000/goodbye"));
    assert_eq!(response.unwrap_err().output, Error::PathMatch);
    let response = handler.handle(request("GET", "http://localhost:3000/hello/there"));
    assert_eq!(response.unwrap_err().output, Error::PathMatch);
    let response = handler.handle(request("GET", "http://localhost:3000/hello/"));
    assert!(response.is_ok());
    let response = handler.handle(request("GET", "http://localhost:3000/"));
    assert_eq!(response.unwrap_err().output, Error::PathMatch);
}

#[test]
fn path_reads_every_kind() {
    let mut handler = path(Method::from_name("GET"))
        .dynamic_segment(Kind::I32)
        .dynamic_segment(Kind::U64)
        .dynamic_segment(Kind::I64)
        .dynamic_segment(Kind::Text);
    let response = handler.handle(request(
        "GET",
        "http://localhost:3000/-12/18446744073709551615/-9223372036854775808/word",
    ));
    assert_eq!(
        response.unwrap().output,
        vec![
            Capture::I32(-12),
            Capture::U64(18446744073709551615),
            Capture::I64(-9223372036854775808),
            Capture::Text("word".to_string()),
        ]
    );
}

#[test]
fn path_rejects_numbers_out_of_range() {
    let mut handler = path(Method::from_name("GET")).dynamic_segment(Kind::U32);
    let response = handler.handle(request("GET", "http://localhost:3000/4294967296"));
    assert_eq!(response.unwrap_err().output, Error::Fatal(SegmentError { position: 0, reason: ParseFailure::PosOverflow }));
    let response = handler.handle(request("GET", "http://localhost:3000/4294967295"));
    assert_eq!(response.unwrap().output, vec![Capture::U32(4294967295)]);
}

#[test]
fn matcher_reports_incorrect_method() {
    let mut handler = quux::server::matcher::path::<()>(Method::from_name("GET"));
    let response = handler.handle(request("PUT", "http://localhost:3000"));
    assert_eq!(response.unwrap_err().output, MatchError::IncorrectMethod);
}

#[test]
fn matcher_reports_static_and_dynamic_mismatch() {
    let mut handler = quux::server::matcher::path::<()>(Method::from_name("GET"))
        .static_segment("hello")
        .dynamic_segment(Kind::U32);
    let response = handler.handle(request("GET", "http://localhost:3000/bye/16"));
    assert_eq!(response.unwrap_err().output, MatchError::Static);
    let response = handler.handle(request("GET", "http://localhost:3000/hello/x"));
    assert_eq!(response.unwrap_err().output, MatchError::Dynamic(SegmentError { position: 1, reason: ParseFailure::InvalidDigit }));
}

#[test]
fn fatal_gives_the_inner_error() {
    assert_eq!(Error::Fatal(3u8).fatal(), Some(3u8));
    assert_eq!(Error::<u8>::PathMatch.fatal(), None);
}

#[test]
fn request_keeps_its_path() {
    let request = Request::new(Method::from_name("GET"), "http://localhost:3000/a/b?x=1").unwrap();
    assert_eq!(request.path(), "/a/b");
    assert_eq!(request.uri(), "http://localhost:3000/a/b?x=1");
    assert_eq!(request.method().as_str(), "GET");
    assert!(Request::new(Method::from_name("GET"), "not a uri").is_none());
}

#[test]
fn server_without_routes_falls_back() {
    let mut s = server::<()>().fallback(|context: Context<Error<()>>| match context.output {
        Error::PathMatch => 404u16,
        Error::Fatal(()) => 500u16,
    });
    let request = Request::new(Method::from_name("GET"), "http://localhost:3000/").unwrap();
    assert_eq!(s.respond(request), Err(404u16));
}

#[test]
fn server_routes_requests() {
    let mut s = server::<()>()
        .route(
            path(Method::from_name("GET")).static_segment("hello").dynamic_segment(Kind::U32),
            |captures: Vec<Capture>| captures.len(),
        )
        .route(path(Method::from_name("POST")).static_segment("echo"), |_captures: Vec<Capture>| 7usize)
        .fallback(|context: Context<Error<Either<Either<(), SegmentError>, SegmentError>>>| {
            match context.output {
                Error::PathMatch => 404u16,
                Error::Fatal(_) => 400u16,
            }
        });
    let hello = Request::new(Method::from_name("GET"), "http://localhost:3000/hello/5").unwrap();
    match s.respond(hello) {
        Ok(Either::A(Either::B(n))) => assert_eq!(n, 1),
        _ => panic!("the first route answers"),
    }
    let echo = Request::new(Method::from_name("POST"), "http://localhost:3000/echo").unwrap();
    match s.respond(echo) {
        Ok(Either::B(n)) => assert_eq!(n, 7),
        _ => panic!("the second route answers"),
    }
    let bad = Request::new(Method::from_name("GET"), "http://localhost:3000/hello/x").unwrap();
    assert_eq!(s.respond(bad).err(), Some(400u16));
    let missing = Request::new(Method::from_name("GET"), "http://localhost:3000/nothing").unwrap();
    assert_eq!(s.respond(missing).err(), Some(404u16));
}
