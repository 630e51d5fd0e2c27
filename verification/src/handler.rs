//! Requests, contexts and composable request handlers.

use vstd::prelude::*;
use crate::text::str_eq;

pub mod and_then;
pub mod map;
pub mod map_err;
pub mod or;
pub mod then;

verus! {

/// An HTTP method, held by its name (`GET`, `POST`, ...).
#[derive(Debug)]
pub struct Method {
    name: String,
}

impl View for Method {
    type V = Seq<char>;

    closed spec fn view(&self) -> Seq<char> {
        self.name@
    }
}

impl Method {
    /// The method with the given name.
    pub fn from_name(name: &str) -> (m: Method)
        ensures
            m@ == name@,
    {
        Method { name: name.to_owned() }
    }

    /// The name of the method.
    pub fn as_str(&self) -> (s: &str)
        ensures
            s@ == self@,
    {
        self.name.as_str()
    }

    /// Whether both methods have the same name.
    pub fn same(&self, other: &Method) -> (r: bool)
        ensures
            r == (self@ == other@),
    {
        str_eq(self.name.as_str(), other.name.as_str())
    }
}

/// The characters of an optional string.
pub open spec fn opt_view(s: Option<String>) -> Option<Seq<char>> {
    match s {
        Some(t) => Some(t@),
        None => None,
    }
}

/// `http::Uri` parsing, followed by `Uri::path`: the path of the URI, or `None` when
/// the text is no URI.
pub uninterp spec fn http_uri_path(uri: Seq<char>) -> Option<Seq<char>>;

/// `url::Url::parse`, followed by `Url::path`: the path of the URL, or `None` when the
/// text is no absolute URL.
pub uninterp spec fn url_path(uri: Seq<char>) -> Option<Seq<char>>;

/// Parses `uri` with `http` and returns its path (`Uri::path`). The contract only names
/// the result; the URI grammar is not restated here.
#[verifier::external_body]
fn parse_http_path(uri: &str) -> (path: Option<String>)
    ensures
        http_uri_path(uri@) == opt_view(path),
{
    uri.parse::<http::Uri>().ok().map(|parsed| parsed.path().to_string())
}

/// Parses `uri` with `url` and returns its path (`Url::path`). The contract only names
/// the result; the URL grammar is not restated here.
#[verifier::external_body]
pub(crate) fn parse_url_path(uri: &str) -> (path: Option<String>)
    ensures
        url_path(uri@) == opt_view(path),
{
    url::Url::parse(uri).ok().map(|parsed| parsed.path().to_string())
}

/// An incoming request, as far as handlers read it: its method, its URI and the
/// path of that URI.
#[derive(Debug)]
pub struct Request {
    method: Method,
    uri: String,
    path: String,
}

impl Request {
    /// The request is well formed: its path is the one `http` finds in its URI.
    pub closed spec fn wf(&self) -> bool {
        http_uri_path(self.uri@) == Some(self.path@)
    }

    pub closed spec fn spec_method(&self) -> Seq<char> {
        self.method@
    }

    pub closed spec fn spec_uri(&self) -> Seq<char> {
        self.uri@
    }

    pub closed spec fn spec_path(&self) -> Seq<char> {
        self.path@
    }

    /// A request with the given method and URI; `None` when `http` does not accept
    /// the URI.
    pub fn new(method: Method, uri: &str) -> (r: Option<Request>)
        ensures
            http_uri_path(uri@) is None ==> r is None,
            http_uri_path(uri@) is Some ==> r is Some,
            r matches Some(req) ==> req.spec_method() == method@ && req.spec_uri() == uri@
                && http_uri_path(uri@) == Some(req.spec_path()),
    {
        match parse_http_path(uri) {
            Some(path) => Some(Request { method, uri: uri.to_owned(), path }),
            None => None,
        }
    }

    pub fn method(&self) -> (m: &Method)
        ensures
            m@ == self.spec_method(),
    {
        &self.method
    }

    pub fn uri(&self) -> (u: &str)
        ensures
            u@ == self.spec_uri(),
    {
        self.uri.as_str()
    }

    pub fn path(&self) -> (p: &str)
        ensures
            p@ == self.spec_path(),
    {
        self.path.as_str()
    }
}

/// A request travelling through handlers, together with what they produced so far.
#[derive(Debug)]
pub struct Context<O> {
    pub request: Request,
    pub output: O,
}

impl<O> Context<O> {
    /// The request of the context.
    pub open spec fn spec_request(&self) -> Request {
        self.request
    }

    /// The output of the context.
    pub open spec fn spec_output(&self) -> O {
        self.output
    }
}

impl Context<()> {
    /// A context for `request` with no output yet.
    pub fn new(request: Request) -> (c: Context<()>)
        ensures
            c.spec_request() == request,
            c.spec_output() == (),
    {
        Context { request, output: () }
    }
}

impl<O> Context<O> {
    pub fn request(&self) -> (r: &Request)
        ensures
            *r == self.spec_request(),
    {
        &self.request
    }

    /// The same request with `output` in place of the current output.
    pub fn with_output<T>(self, output: T) -> (c: Context<T>)
        ensures
            c.spec_request() == self.spec_request(),
            c.spec_output() == output,
    {
        let Context { request, .. } = self;
        Context { request, output }
    }

    /// The same request with the output passed through `mapping`.
    pub fn map<T, F: FnOnce(O) -> T>(self, mapping: F) -> (c: Context<T>)
        requires
            mapping.requires((self.spec_output(),)),
        ensures
            c.spec_request() == self.spec_request(),
            mapping.ensures((self.spec_output(),), c.spec_output()),
    {
        let Context { request, output } = self;
        Context { request, output: mapping(output) }
    }
}

/// Mapping a context twice is mapping it once through both functions: when `c1` is
/// what `c.map(f)` gives and `c2` what `c1.map(g)` gives, `c2` keeps the request of
/// `c` and is what `c.map(h)` may give for any `h` that does what `f` then `g` do.
pub proof fn lemma_map_composes<O, T, U, F, G, H>(
    c: Context<O>,
    f: F,
    g: G,
    h: H,
    c1: Context<T>,
    c2: Context<U>,
) where F: FnOnce(O) -> T, G: FnOnce(T) -> U, H: FnOnce(O) -> U
    requires
        c1.spec_request() == c.spec_request(),
        f.ensures((c.spec_output(),), c1.spec_output()),
        c2.spec_request() == c1.spec_request(),
        g.ensures((c1.spec_output(),), c2.spec_output()),
        forall|x: O, y: U| #[trigger] h.ensures((x,), y) <==> exists|t: T| f.ensures((x,), t) && #[trigger] g.ensures((t,), y),
    ensures
        c2.spec_request() == c.spec_request(),
        h.ensures((c.spec_output(),), c2.spec_output()),
{
    assert(f.ensures((c.spec_output(),), c1.spec_output()) && g.ensures((c1.spec_output(),), c2.spec_output()));
}

/// Mapping a context with a function that gives back its argument leaves the
/// context as it was.
pub proof fn lemma_map_identity<O, F>(c: Context<O>, f: F, c1: Context<O>) where F: FnOnce(O) -> O
    requires
        forall|x: O, y: O| #[trigger] f.ensures((x,), y) ==> y == x,
        c1.spec_request() == c.spec_request(),
        f.ensures((c.spec_output(),), c1.spec_output()),
    ensures
        c1 == c,
{
}

/// Mapping a context with a function that always gives `v` is giving it the output
/// `v`: the result is what `c.with_output(v)` gives.
pub proof fn lemma_map_constant<O, T, F>(c: Context<O>, f: F, v: T, c1: Context<T>) where F: FnOnce(O) -> T
    requires
        forall|x: O, y: T| #[trigger] f.ensures((x,), y) ==> y == v,
        c1.spec_request() == c.spec_request(),
        f.ensures((c.spec_output(),), c1.spec_output()),
    ensures
        c1.spec_request() == c.spec_request(),
        c1.spec_output() == v,
{
}

/// Along a run of contexts each made from the one before by `new`, `with_output` or
/// `map` (each of which keeps the request), every context holds the first request.
pub proof fn lemma_request_kept(requests: Seq<Request>)
    requires
        forall|i: int| 0 < i < requests.len() ==> #[trigger] requests[i] == requests[i - 1],
    ensures
        forall|i: int| 0 <= i < requests.len() ==> #[trigger] requests[i] == requests[0],
    decreases requests.len(),
{
    if requests.len() > 1 {
        let shorter = requests.drop_last();
        assert forall|i: int| 0 < i < shorter.len() implies #[trigger] shorter[i] == shorter[i - 1] by {
            assert(shorter[i] == requests[i] && shorter[i - 1] == requests[i - 1]);
        }
        lemma_request_kept(shorter);
        assert forall|i: int| 0 <= i < requests.len() implies #[trigger] requests[i] == requests[0] by {
            if i < requests.len() - 1 {
                assert(shorter[i] == shorter[0]);
            } else {
                assert(requests[i] == requests[i - 1]);
                assert(shorter[i - 1] == shorter[0]);
            }
        }
    }
}

/// One of two values.
#[derive(Debug, PartialEq, Eq)]
pub enum Either<A, B> {
    A(A),
    B(B),
}

/// Something that turns an input into an output or an error.
pub trait Handler: Sized {
    type Input;
    type Output;
    type Error;

    /// Whether the handler may be called with `input`.
    spec fn accepts(&self, input: Self::Input) -> bool;

    /// Whether `result` is a possible outcome of handling `input`.
    spec fn handles(&self, input: Self::Input, result: Result<Self::Output, Self::Error>) -> bool;

    fn handle(&mut self, input: Self::Input) -> (result: Result<Self::Output, Self::Error>)
        requires
            old(self).accepts(input),
        ensures
            old(self).handles(input, result),
            *final(self) == *old(self),
    ;
}

/// A handler made of a function.
pub struct Function<F, I, O, E> {
    handler: F,
    _phantom: core::marker::PhantomData<(I, O, E)>,
}

impl<F, I, O, E> Function<F, I, O, E> {
    /// The function the handler calls.
    pub closed spec fn function(&self) -> F {
        self.handler
    }
}

/// Makes a handler of a function.
pub fn handler<F, I, O, E>(f: F) -> (h: Function<F, I, O, E>) where F: Fn(I) -> Result<O, E>
    ensures
        h.function() == f,
{
    Function { handler: f, _phantom: core::marker::PhantomData }
}

impl<F, I, O, E> Handler for Function<F, I, O, E> where F: Fn(I) -> Result<O, E> {
    type Input = I;
    type Output = O;
    type Error = E;

    open spec fn accepts(&self, input: I) -> bool {
        self.function().requires((input,))
    }

    open spec fn handles(&self, input: I, result: Result<O, E>) -> bool {
        self.function().ensures((input,), result)
    }

    fn handle(&mut self, input: I) -> (result: Result<O, E>) {
        (self.handler)(input)
    }
}

} // verus!
