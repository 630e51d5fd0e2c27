use quux::handler::and_then::HandlerExt as AndThenExt;
use quux::handler::map::HandlerExt as MapExt;
use quux::handler::map_err::HandlerExt as MapErrExt;
use quux::handler::or::HandlerExt as OrExt;
use quux::handler::then::HandlerExt as ThenExt;
use quux::handler::{handler, Context, Either, Handler, Method, Request};

fn halve(x: u32) -> Result<u32, String> {
    if x % 2 == 0 {
        Ok(x / 2)
    } else {
        Err(format!("{} is odd", x))
    }
}

#[test]
fn function_handler_calls_the_function() {
    let mut h = handler(halve);
    assert_eq!(h.handle(8), Ok(4));
    assert_eq!(h.handle(3), Err("3 is odd".to_string()));
}

#[test]
fn and_then_runs_the_second_on_the_output() {
    let mut h = handler(halve).and_then(handler(halve));
    assert_eq!(h.handle(8), Ok(2));
    assert_eq!(h.handle(3), Err(Either::A("3 is odd".to_string())));
    assert_eq!(h.handle(6), Err(Either::B("3 is odd".to_string())));
}

#[test]
fn map_and_map_err_change_one_side() {
    let mut h = handler(halve).map(|x: u32| x + 100);
    assert_eq!(h.handle(8), Ok(104));
    assert_eq!(h.handle(1), Err("1 is odd".to_string()));
    let mut h = handler(halve).map_err(|e: String| e.len());
    assert_eq!(h.handle(8), Ok(4));
    assert_eq!(h.handle(1), Err(8));
}

#[test]
fn or_falls_back_on_errors() {
    let mut h = handler(halve).or(handler(|e: String| -> Result<usize, ()> { Ok(e.len()) }));
    assert_eq!(h.handle(8), Ok(Either::A(4)));
    assert_eq!(h.handle(5), Ok(Either::B(8)));
}

#[test]
fn followed_by_sees_output_and_error() {
    let mut h = handler(halve).followed_by(handler(|r: Result<u32, String>| -> Result<bool, ()> {
        Ok(r.is_ok())
    }));
    assert_eq!(h.handle(8), Ok(true));
    assert_eq!(h.handle(7), Ok(false));
}

#[test]
fn context_keeps_its_request() {
    let request = Request::new(Method::from_name("GET"), "http://localhost/x").unwrap();
    let context = Context::new(request).with_output(3u8).map(|x: u8| x * 2);
    assert_eq!(context.output, 6);
    assert_eq!(context.request().path(), "/x");
}

#[test]
fn mapping_twice_is_mapping_through_both() {
    let r = || Request::new(Method::from_name("GET"), "http://localhost/a/b").unwrap();
    let twice = Context::new(r()).with_output(5u32).map(|x: u32| x + 1).map(|x: u32| x * 3);
    let once = Context::new(r()).with_output(5u32).map(|x: u32| (x + 1) * 3);
    assert_eq!(twice.output, once.output);
    assert_eq!(twice.request().path(), "/a/b");
    let same = Context::new(r()).with_output(7u32).map(|x: u32| x);
    assert_eq!(same.output, 7);
    let constant = Context::new(r()).with_output(7u32).map(|_: u32| "v");
    assert_eq!(constant.output, Context::new(r()).with_output("v").output);
    assert_eq!(constant.request().uri(), "http://localhost/a/b");
}

#[test]
fn matching_chains_its_paths() {
    let mut h = quux::matching::Matching::new(handler(halve)).path(handler(halve)).handler();
    assert_eq!(h.handle(12), Ok(3));
    assert_eq!(h.handle(5), Err(Either::A("5 is odd".to_string())));
    assert_eq!(h.handle(2), Err(Either::B("1 is odd".to_string())));
}
