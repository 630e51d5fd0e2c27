//! Serving requests by routes.

use vstd::prelude::*;
use crate::handler::{Context, Either, Handler, Request};
use crate::segment::{values, Capture};
use crate::server::path::{Error, SegmentError};

pub mod path;
pub mod matcher;

pub use path::{path, Path};

verus! {

/// A handler that takes a fresh context and answers with a context holding its
/// output, or with a context holding a route error.
pub trait ContextHandler: Handler<
    Input = Context<()>,
    Output = Context<<Self as ContextHandler>::InnerOutput>,
    Error = Context<path::Error<<Self as ContextHandler>::InnerError>>,
> {
    type InnerOutput;
    type InnerError;
}

impl<T, O, E> ContextHandler for T where
    T: Handler<Input = Context<()>, Output = Context<O>, Error = Context<path::Error<E>>>,
 {
    type InnerOutput = O;
    type InnerError = E;
}

/// The handler of a server after one more route: it runs `base` (the routes so
/// far); a request that no route so far takes (`PathMatch`) goes to `matcher`,
/// whose output passes through `mapping`. The output of `base` comes out as
/// `Either::A`, that of the new route as `Either::B`; so do the fatal errors.
pub struct Route<H, M, G> {
    base: H,
    matcher: M,
    mapping: G,
}

impl<H, M, G> Route<H, M, G> {
    pub closed spec fn base(&self) -> H {
        self.base
    }

    pub closed spec fn matcher(&self) -> M {
        self.matcher
    }

    pub closed spec fn mapping(&self) -> G {
        self.mapping
    }
}

/// The fresh context the new route of a `Route` gets for a request that the routes
/// before it do not take.
pub open spec fn retry<E>(e: Context<Error<E>>) -> Context<()> {
    Context { request: e.request, output: () }
}

/// A fatal error of the routes before the new one, as the error of all the routes.
pub open spec fn lift_base_error<HE, ME>(e: Context<Error<HE>>) -> Context<Error<Either<HE, ME>>> {
    Context {
        request: e.request,
        output: match e.output {
            Error::Fatal(x) => Error::Fatal(Either::A(x)),
            Error::PathMatch => Error::PathMatch,
        },
    }
}

/// An error of the new route, as the error of all the routes.
pub open spec fn lift_matcher_error<HE, ME>(m: Context<Error<ME>>) -> Context<Error<Either<HE, ME>>> {
    Context {
        request: m.request,
        output: match m.output {
            Error::Fatal(x) => Error::Fatal(Either::B(x)),
            Error::PathMatch => Error::PathMatch,
        },
    }
}

impl<H, M, G, HO, HE, MO, ME, O> Handler for Route<H, M, G> where
    H: Handler<Input = Context<()>, Output = Context<HO>, Error = Context<Error<HE>>>,
    M: Handler<Input = Context<()>, Output = Context<MO>, Error = Context<Error<ME>>>,
    G: Fn(MO) -> O,
 {
    type Input = Context<()>;
    type Output = Context<Either<HO, O>>;
    type Error = Context<Error<Either<HE, ME>>>;

    open spec fn accepts(&self, input: Context<()>) -> bool {
        &&& self.base().accepts(input)
        &&& forall|e: Context<Error<HE>>| #[trigger]
            self.base().handles(input, Err(e)) && e.output is PathMatch ==> {
                &&& self.matcher().accepts(retry(e))
                &&& forall|m: Context<MO>| #[trigger]
                    self.matcher().handles(retry(e), Ok(m)) ==> self.mapping().requires((m.output,))
            }
    }

    open spec fn handles(
        &self,
        input: Context<()>,
        result: Result<Context<Either<HO, O>>, Context<Error<Either<HE, ME>>>>,
    ) -> bool {
        match result {
            Ok(c) => {
                ||| exists|o: Context<HO>| #[trigger]
                    self.base().handles(input, Ok(o)) && c == Context {
                        request: o.request,
                        output: Either::<HO, O>::A(o.output),
                    }
                ||| exists|e: Context<Error<HE>>, m: Context<MO>|
                    #![trigger self.matcher().handles(retry(e), Ok(m))]
                    self.base().handles(input, Err(e)) && e.output is PathMatch
                        && self.matcher().handles(retry(e), Ok(m)) && c.request == m.request
                        && c.output is B && self.mapping().ensures((m.output,), c.output->B_0)
            },
            Err(c) => {
                ||| exists|e: Context<Error<HE>>| #[trigger]
                    self.base().handles(input, Err(e)) && e.output is Fatal && c == lift_base_error::<HE, ME>(e)
                ||| exists|e: Context<Error<HE>>, m: Context<Error<ME>>|
                    #![trigger self.matcher().handles(retry(e), Err(m))]
                    self.base().handles(input, Err(e)) && e.output is PathMatch
                        && self.matcher().handles(retry(e), Err(m)) && c == lift_matcher_error::<HE, ME>(m)
            },
        }
    }

    fn handle(&mut self, input: Context<()>) -> (result: Result<
        Context<Either<HO, O>>,
        Context<Error<Either<HE, ME>>>,
    >) {
        match self.base.handle(input) {
            Ok(c) => {
                let Context { request, output } = c;
                Ok(Context { request, output: Either::A(output) })
            },
            Err(c) => {
                let ghost e = c;
                let Context { request, output } = c;
                match output {
                    Error::Fatal(x) => Err(Context { request, output: Error::Fatal(Either::A(x)) }),
                    Error::PathMatch => {
                        let next = Context { request, output: () };
                        self.take_unmatched(next, Ghost(input), Ghost(e))
                    },
                }
            },
        }
    }
}

impl<H, M, G, HO, HE, MO, ME, O> Route<H, M, G> where
    H: Handler<Input = Context<()>, Output = Context<HO>, Error = Context<Error<HE>>>,
    M: Handler<Input = Context<()>, Output = Context<MO>, Error = Context<Error<ME>>>,
    G: Fn(MO) -> O,
 {
    /// Runs the new route on a request that the routes before it do not take.
    fn take_unmatched(
        &mut self,
        next: Context<()>,
        Ghost(input): Ghost<Context<()>>,
        Ghost(e): Ghost<Context<Error<HE>>>,
    ) -> (result: Result<Context<Either<HO, O>>, Context<Error<Either<HE, ME>>>>)
        requires
            old(self).accepts(input),
            old(self).base().handles(input, Err(e)),
            e.output is PathMatch,
            next == retry(e),
        ensures
            old(self).handles(input, result),
            *final(self) == *old(self),
    {
        let ghost start = *self;
        assert(start.matcher().accepts(retry(e)));
        match self.matcher.handle(next) {
            Ok(m) => {
                let ghost mc = m;
                assert(start.matcher().handles(retry(e), Ok(mc)));
                let Context { request, output } = m;
                let v = (self.mapping)(output);
                Ok(Context { request, output: Either::B(v) })
            },
            Err(m) => {
                let ghost mc = m;
                assert(start.matcher().handles(retry(e), Err(mc)));
                let Context { request, output } = m;
                match output {
                    Error::Fatal(x) => Err(Context { request, output: Error::Fatal(Either::B(x)) }),
                    Error::PathMatch => Err(Context { request, output: Error::PathMatch }),
                }
            },
        }
    }
}

/// A server: the handler of its routes, and what answers the requests that no
/// route takes.
pub struct Server<H, F, R> {
    handler: H,
    fallback: F,
    _phantom: core::marker::PhantomData<R>,
}

impl<H, F, R> Server<H, F, R> {
    /// The handler of the routes.
    pub closed spec fn spec_handler(&self) -> H {
        self.handler
    }

    /// What answers the requests that no route takes.
    pub closed spec fn spec_fallback(&self) -> F {
        self.fallback
    }

    /// A server with the given handler and fallback.
    pub fn new(handler: H, fallback: F) -> (s: Self)
        ensures
            s.spec_handler() == handler,
            s.spec_fallback() == fallback,
    {
        Server { handler, fallback, _phantom: core::marker::PhantomData }
    }

    /// The same server with its handler passed through `mapping`.
    pub fn map_handler<M, H2>(self, mapping: M) -> (s: Server<H2, F, R>) where M: FnOnce(H) -> H2
        requires
            mapping.requires((self.spec_handler(),)),
        ensures
            mapping.ensures((self.spec_handler(),), s.spec_handler()),
            s.spec_fallback() == self.spec_fallback(),
    {
        let Server { handler, fallback, .. } = self;
        Server { handler: mapping(handler), fallback, _phantom: core::marker::PhantomData }
    }

    /// The same server with one more route: a request that no route so far takes
    /// goes to `matcher`, whose output passes through `mapping`.
    pub fn route<M, G>(self, matcher: M, mapping: G) -> (s: Server<Route<H, M, G>, F, R>)
        ensures
            s.spec_handler().base() == self.spec_handler(),
            s.spec_handler().matcher() == matcher,
            s.spec_handler().mapping() == mapping,
            s.spec_fallback() == self.spec_fallback(),
    {
        let Server { handler, fallback, .. } = self;
        Server {
            handler: Route { base: handler, matcher, mapping },
            fallback,
            _phantom: core::marker::PhantomData,
        }
    }

    /// The same server, with `mapping` answering the requests that no route takes.
    pub fn fallback<G>(self, mapping: G) -> (s: Server<H, G, R>)
        ensures
            s.spec_handler() == self.spec_handler(),
            s.spec_fallback() == mapping,
    {
        let Server { handler, .. } = self;
        Server { handler, fallback: mapping, _phantom: core::marker::PhantomData }
    }
}

impl<H, F, R, O, E, A> Server<H, F, R> where
    H: Handler<Input = Context<()>, Output = Context<O>, Error = Context<Error<E>>>,
    F: Fn(Context<Error<E>>) -> A,
 {
    /// Whether the server may be asked to answer `request`.
    pub open spec fn answers(&self, request: Request) -> bool {
        &&& self.spec_handler().accepts(Context { request, output: () })
        &&& forall|e: Context<Error<E>>| #[trigger]
            self.spec_handler().handles(Context { request, output: () }, Err(e))
                ==> self.spec_fallback().requires((e,))
    }

    /// The answer to `request`: the output of the route that takes it, or what the
    /// fallback makes of the error.
    pub fn respond(&mut self, request: Request) -> (r: Result<O, A>)
        requires
            old(self).answers(request),
        ensures
            *final(self) == *old(self),
            match r {
                Ok(o) => exists|c: Context<O>| #[trigger]
                    old(self).spec_handler().handles(Context { request, output: () }, Ok(c))
                        && c.output == o,
                Err(a) => exists|e: Context<Error<E>>| #[trigger]
                    old(self).spec_handler().handles(Context { request, output: () }, Err(e))
                        && old(self).spec_fallback().ensures((e,), a),
            },
    {
        let ghost start = *self;
        let input = Context { request, output: () };
        match self.handler.handle(input) {
            Ok(c) => {
                let ghost cc = c;
                assert(start.spec_handler().handles(Context { request, output: () }, Ok(cc)));
                Ok(c.output)
            },
            Err(e) => {
                let ghost ee = e;
                assert(start.spec_handler().handles(Context { request, output: () }, Err(ee)));
                Err((self.fallback)(e))
            },
        }
    }
}

/// The handler of a server without routes: every request is left to the fallback.
pub struct NoRoute;

impl Handler for NoRoute {
    type Input = Context<()>;
    type Output = Context<core::convert::Infallible>;
    type Error = Context<Error<()>>;

    open spec fn accepts(&self, input: Context<()>) -> bool {
        true
    }

    open spec fn handles(
        &self,
        input: Context<()>,
        result: Result<Context<core::convert::Infallible>, Context<Error<()>>>,
    ) -> bool {
        result == Err::<Context<core::convert::Infallible>, Context<Error<()>>>(
            Context { request: input.request, output: Error::PathMatch },
        )
    }

    fn handle(&mut self, input: Context<()>) -> (result: Result<
        Context<core::convert::Infallible>,
        Context<Error<()>>,
    >) {
        Err(input.with_output(Error::PathMatch))
    }
}

/// A server without routes and without a fallback yet.
pub fn server<R>() -> (s: Server<NoRoute, (), R>)
    ensures
        s.spec_handler() == NoRoute,
        s.spec_fallback() == (),
{
    Server::new(NoRoute, ())
}

/// A request that the routes before a new route do not take (they have no output
/// for it, and each of their errors is `PathMatch` with the request unchanged), and
/// that the new route's path
/// reads, is answered by the new route: with what its mapping makes of the values
/// read from the request's path.
pub proof fn lemma_route_answers_unclaimed_request<H, G, HO, HE, O>(
    route: Route<H, Path, G>,
    input: Context<()>,
    result: Result<Context<Either<HO, O>>, Context<Error<Either<HE, SegmentError>>>>,
) where
    H: Handler<Input = Context<()>, Output = Context<HO>, Error = Context<Error<HE>>>,
    G: Fn(Vec<Capture>) -> O,

    requires
        route.handles(input, result),
        forall|o: Context<HO>| !#[trigger] route.base().handles(input, Ok(o)),
        forall|e: Context<Error<HE>>| #[trigger]
            route.base().handles(input, Err(e)) ==> e.output is PathMatch && e.request
                == input.request,
        route.matcher().outcome(input.request) is Ok,
    ensures
        result is Ok,
        result->Ok_0.request == input.request,
        result->Ok_0.output is B,
        exists|m: Vec<Capture>|
            #![trigger route.mapping().ensures((m,), result->Ok_0.output->B_0)]
            values(m@) == route.matcher().outcome(input.request)->Ok_0 && route.mapping().ensures(
                (m,),
                result->Ok_0.output->B_0,
            ),
{
    match result {
        Ok(c) => {
            if exists|o: Context<HO>| #[trigger]
                route.base().handles(input, Ok(o)) && c == (Context {
                    request: o.request,
                    output: Either::<HO, O>::A(o.output),
                }) {
                let o = choose|o: Context<HO>| #[trigger]
                    route.base().handles(input, Ok(o)) && c == Context {
                        request: o.request,
                        output: Either::<HO, O>::A(o.output),
                    };
                assert(route.base().handles(input, Ok(o)));
            } else {
                let (e, m) = choose|e: Context<Error<HE>>, m: Context<Vec<Capture>>|
                    #![trigger route.matcher().handles(retry(e), Ok(m))]
                    route.base().handles(input, Err(e)) && e.output is PathMatch
                        && route.matcher().handles(retry(e), Ok(m)) && c.request == m.request
                        && c.output is B && route.mapping().ensures((m.output,), c.output->B_0);
                assert(route.mapping().ensures((m.output,), c.output->B_0));
            }
        },
        Err(c) => {
            if exists|e: Context<Error<HE>>| #[trigger]
                route.base().handles(input, Err(e)) && e.output is Fatal && c
                    == lift_base_error::<HE, SegmentError>(e) {
                let e = choose|e: Context<Error<HE>>| #[trigger]
                    route.base().handles(input, Err(e)) && e.output is Fatal && c
                        == lift_base_error::<HE, SegmentError>(e);
                assert(route.base().handles(input, Err(e)));
            } else {
                let (e, m) = choose|e: Context<Error<HE>>, m: Context<Error<SegmentError>>|
                    #![trigger route.matcher().handles(retry(e), Err(m))]
                    route.base().handles(input, Err(e)) && e.output is PathMatch
                        && route.matcher().handles(retry(e), Err(m)) && c
                        == lift_matcher_error::<HE, SegmentError>(m);
                assert(route.matcher().handles(retry(e), Err(m)));
            }
        },
    }
}

/// A server without routes leaves every request to its fallback, with the error
/// `PathMatch`.
pub proof fn lemma_no_route_leaves_request(
    input: Context<()>,
    result: Result<Context<core::convert::Infallible>, Context<Error<()>>>,
)
    requires
        NoRoute.handles(input, result),
    ensures
        result is Err,
        result->Err_0.request == input.request,
        result->Err_0.output is PathMatch,
{
}

} // verus!
