//! Falling back to a second handler when a first one fails.

use vstd::prelude::*;
use crate::handler::{Either, Handler};

verus! {

/// Runs `base`; when it fails, runs `fallback` on its error.
pub struct Or<H1, H2> {
    base: H1,
    fallback: H2,
}

impl<H1, H2> Or<H1, H2> {
    pub closed spec fn base(&self) -> H1 {
        self.base
    }

    pub closed spec fn fallback(&self) -> H2 {
        self.fallback
    }
}

impl<H1, H2> Handler for Or<H1, H2> where H1: Handler, H2: Handler<Input = H1::Error> {
    type Input = H1::Input;
    type Output = Either<H1::Output, H2::Output>;
    type Error = H2::Error;

    open spec fn accepts(&self, input: H1::Input) -> bool {
        &&& self.base().accepts(input)
        &&& forall|e: H1::Error| #[trigger]
            self.base().handles(input, Err(e)) ==> self.fallback().accepts(e)
    }

    open spec fn handles(
        &self,
        input: H1::Input,
        result: Result<Either<H1::Output, H2::Output>, H2::Error>,
    ) -> bool {
        match result {
            Ok(Either::A(v)) => self.base().handles(input, Ok(v)),
            Ok(Either::B(v)) => exists|e: H1::Error|
                #![trigger self.fallback().handles(e, Ok(v))]
                self.base().handles(input, Err(e)) && self.fallback().handles(e, Ok(v)),
            Err(err) => exists|e: H1::Error|
                #![trigger self.fallback().handles(e, Err(err))]
                self.base().handles(input, Err(e)) && self.fallback().handles(e, Err(err)),
        }
    }

    fn handle(&mut self, input: H1::Input) -> (result: Result<
        Either<H1::Output, H2::Output>,
        H2::Error,
    >) {
        let ghost start = *self;
        match self.base.handle(input) {
            Ok(output) => {
                let r: Result<Either<H1::Output, H2::Output>, H2::Error> = Ok(Either::A(output));
                assert(r is Ok && r->Ok_0 is A && r->Ok_0->A_0 == output);
                r
            },
            Err(err) => {
                let ghost e = err;
                match self.fallback.handle(err) {
                    Ok(v) => {
                        let r: Result<Either<H1::Output, H2::Output>, H2::Error> = Ok(
                            Either::B(v),
                        );
                        assert(start.base().handles(input, Err(e)) && start.fallback().handles(
                            e,
                            Ok(v),
                        ));
                        assert(r is Ok && r->Ok_0 is B && r->Ok_0->B_0 == v);
                        r
                    },
                    Err(err2) => {
                        let r: Result<Either<H1::Output, H2::Output>, H2::Error> = Err(err2);
                        assert(start.base().handles(input, Err(e)) && start.fallback().handles(
                            e,
                            Err(err2),
                        ));
                        assert(r is Err && r->Err_0 == err2);
                        r
                    },
                }
            },
        }
    }
}

/// Fallback between handlers.
pub trait HandlerExt: Handler {
    /// A handler that runs `self` and, when it fails, `fallback` on the error; the
    /// output of `self` comes out as `Either::A`, that of `fallback` as `Either::B`.
    fn or<H>(self, fallback: H) -> (r: Or<Self, H>) where H: Handler<Input = Self::Error>
        ensures
            r.base() == self,
            r.fallback() == fallback,
    {
        Or { base: self, fallback }
    }
}

impl<T: Handler> HandlerExt for T {}

/// A fallback answers with the output of its base handler exactly when the base
/// handler gives that output, and the fallback handler is then not reached; the
/// fallback's outputs and errors come only after an error of the base handler.
pub proof fn lemma_or_outcomes<H1, H2>(
    h: Or<H1, H2>,
    input: H1::Input,
    o: H1::Output,
    r: Result<Either<H1::Output, H2::Output>, H2::Error>,
) where H1: Handler, H2: Handler<Input = H1::Error>
    ensures
        h.handles(input, Ok(Either::A(o))) <==> h.base().handles(input, Ok(o)),
        h.handles(input, r) && !(r is Ok && r->Ok_0 is A) ==> exists|e: H1::Error| #[trigger]
            h.base().handles(input, Err(e)),
{
    if h.handles(input, r) && !(r is Ok && r->Ok_0 is A) {
        match r {
            Ok(Either::B(v)) => {
                let e = choose|e: H1::Error| h.base().handles(input, Err(e)) && h.fallback().handles(e, Ok(v));
                assert(h.base().handles(input, Err(e)));
            },
            Err(x) => {
                let e = choose|e: H1::Error| h.base().handles(input, Err(e)) && h.fallback().handles(e, Err(x));
                assert(h.base().handles(input, Err(e)));
            },
            Ok(Either::A(_)) => {},
        }
    }
}

/// When the base handler can only succeed, with `o`, the fallback answers only
/// with `Either::A(o)`.
pub proof fn lemma_or_on_success<H1, H2>(
    h: Or<H1, H2>,
    input: H1::Input,
    o: H1::Output,
    r: Result<Either<H1::Output, H2::Output>, H2::Error>,
) where H1: Handler, H2: Handler<Input = H1::Error>
    requires
        h.base().handles(input, Ok(o)),
        forall|x: Result<H1::Output, H1::Error>| #[trigger] h.base().handles(input, x) ==> x == Ok::<
            H1::Output,
            H1::Error,
        >(o),
    ensures
        h.handles(input, r) <==> r == Ok::<Either<H1::Output, H2::Output>, H2::Error>(Either::A(o)),
{
    match r {
        Ok(Either::B(v)) => {
            if h.handles(input, r) {
                let e = choose|e: H1::Error| h.base().handles(input, Err(e)) && h.fallback().handles(e, Ok(v));
                assert(h.base().handles(input, Err(e)));
            }
        },
        Err(x) => {
            if h.handles(input, r) {
                let e = choose|e: H1::Error| h.base().handles(input, Err(e)) && h.fallback().handles(e, Err(x));
                assert(h.base().handles(input, Err(e)));
            }
        },
        Ok(Either::A(a)) => {
            if h.handles(input, r) {
                assert(h.base().handles(input, Ok(a)));
            }
        },
    }
}

/// When the base handler can only fail, with `e`, the outcomes are the fallback's
/// outcomes on `e`, its outputs as `Either::B`.
pub proof fn lemma_or_on_failure<H1, H2>(
    h: Or<H1, H2>,
    input: H1::Input,
    e: H1::Error,
    r: Result<Either<H1::Output, H2::Output>, H2::Error>,
) where H1: Handler, H2: Handler<Input = H1::Error>
    requires
        h.base().handles(input, Err(e)),
        forall|x: Result<H1::Output, H1::Error>| #[trigger] h.base().handles(input, x) ==> x == Err::<
            H1::Output,
            H1::Error,
        >(e),
    ensures
        h.handles(input, r) <==> match r {
            Ok(Either::A(_)) => false,
            Ok(Either::B(v)) => h.fallback().handles(e, Ok(v)),
            Err(x) => h.fallback().handles(e, Err(x)),
        },
{
    match r {
        Ok(Either::B(v)) => {
            if h.handles(input, r) {
                let e2 = choose|e2: H1::Error| h.base().handles(input, Err(e2)) && h.fallback().handles(e2, Ok(v));
                assert(h.base().handles(input, Err(e2)));
            }
            if h.fallback().handles(e, Ok(v)) {
                assert(h.base().handles(input, Err(e)) && h.fallback().handles(e, Ok(v)));
            }
        },
        Err(x) => {
            if h.handles(input, r) {
                let e2 = choose|e2: H1::Error| h.base().handles(input, Err(e2)) && h.fallback().handles(e2, Err(x));
                assert(h.base().handles(input, Err(e2)));
            }
            if h.fallback().handles(e, Err(x)) {
                assert(h.base().handles(input, Err(e)) && h.fallback().handles(e, Err(x)));
            }
        },
        Ok(Either::A(a)) => {
            if h.handles(input, r) {
                assert(h.base().handles(input, Ok(a)));
            }
        },
    }
}

} // verus!
