//! Running a second handler on the output of a first one.

use vstd::prelude::*;
use crate::handler::{Either, Handler};

verus! {

/// Runs `base`, then `mapping` on its output.
pub struct AndThen<H1, H2> {
    base: H1,
    mapping: H2,
}

impl<H1, H2> AndThen<H1, H2> {
    pub closed spec fn base(&self) -> H1 {
        self.base
    }

    pub closed spec fn mapping(&self) -> H2 {
        self.mapping
    }
}

impl<H1, H2> Handler for AndThen<H1, H2> where H1: Handler, H2: Handler<Input = H1::Output> {
    type Input = H1::Input;
    type Output = H2::Output;
    type Error = Either<H1::Error, H2::Error>;

    open spec fn accepts(&self, input: H1::Input) -> bool {
        &&& self.base().accepts(input)
        &&& forall|o: H1::Output| #[trigger]
            self.base().handles(input, Ok(o)) ==> self.mapping().accepts(o)
    }

    open spec fn handles(
        &self,
        input: H1::Input,
        result: Result<H2::Output, Either<H1::Error, H2::Error>>,
    ) -> bool {
        match result {
            Err(Either::A(e)) => self.base().handles(input, Err(e)),
            Err(Either::B(e)) => exists|o: H1::Output|
                #![trigger self.mapping().handles(o, Err(e))]
                self.base().handles(input, Ok(o)) && self.mapping().handles(o, Err(e)),
            Ok(v) => exists|o: H1::Output|
                #![trigger self.mapping().handles(o, Ok(v))]
                self.base().handles(input, Ok(o)) && self.mapping().handles(o, Ok(v)),
        }
    }

    fn handle(&mut self, input: H1::Input) -> (result: Result<
        H2::Output,
        Either<H1::Error, H2::Error>,
    >) {
        let ghost start = *self;
        match self.base.handle(input) {
            Err(err) => {
                let r: Result<H2::Output, Either<H1::Error, H2::Error>> = Err(Either::A(err));
                assert(start.handles(input, r));
                r
            },
            Ok(output) => {
                assert(start.base().handles(input, Ok(output)));
                let ghost o = output;
                match self.mapping.handle(output) {
                    Ok(v) => {
                        assert(start.mapping().handles(o, Ok(v)));
                        let r: Result<H2::Output, Either<H1::Error, H2::Error>> = Ok(v);
                        assert(start.base().handles(input, Ok(o)) && start.mapping().handles(o, Ok(v)));
                        assert(exists|o2: H1::Output| start.base().handles(input, Ok(o2)) && #[trigger] start.mapping().handles(o2, Ok(v)));
                        assert(r is Ok);
                        assert(r->Ok_0 == v);
                        assert(start.handles(input, Ok(v)));
                        assert(start.handles(input, r));
                        r
                    },
                    Err(err) => {
                        assert(start.mapping().handles(o, Err(err)));
                        let r: Result<H2::Output, Either<H1::Error, H2::Error>> = Err(Either::B(err));
                        assert(r is Err && r->Err_0 == Either::<H1::Error, H2::Error>::B(err));
                        assert(r->Err_0 is B);
                        assert(r->Err_0->B_0 == err);
                        assert(exists|o2: H1::Output| start.base().handles(input, Ok(o2)) && #[trigger] start.mapping().handles(o2, Err(err)));
                        assert(start.handles(input, r));
                        r
                    },
                }
            },
        }
    }
}

/// Chaining of handlers.
pub trait HandlerExt: Handler {
    /// A handler that runs `self`, then `mapping` on its output; a failure of
    /// `self` comes out as `Either::A`, one of `mapping` as `Either::B`.
    fn and_then<H>(self, mapping: H) -> (r: AndThen<Self, H>) where H: Handler<Input = Self::Output>
        ensures
            r.base() == self,
            r.mapping() == mapping,
    {
        AndThen { base: self, mapping }
    }
}

impl<T: Handler> HandlerExt for T {}

/// A chain fails with an error of its first handler exactly when that handler fails
/// with it, and the second handler is then not reached; an output of the chain, or
/// an error of its second handler, comes only after an output of the first.
pub proof fn lemma_and_then_outcomes<H1, H2>(
    h: AndThen<H1, H2>,
    input: H1::Input,
    e: H1::Error,
    r: Result<H2::Output, Either<H1::Error, H2::Error>>,
) where H1: Handler, H2: Handler<Input = H1::Output>
    ensures
        h.handles(input, Err(Either::A(e))) <==> h.base().handles(input, Err(e)),
        h.handles(input, r) && !(r is Err && r->Err_0 is A) ==> exists|o: H1::Output| #[trigger]
            h.base().handles(input, Ok(o)),
{
    if h.handles(input, r) && !(r is Err && r->Err_0 is A) {
        match r {
            Ok(v) => {
                let o = choose|o: H1::Output| h.base().handles(input, Ok(o)) && h.mapping().handles(o, Ok(v));
                assert(h.base().handles(input, Ok(o)));
            },
            Err(Either::B(x)) => {
                let o = choose|o: H1::Output| h.base().handles(input, Ok(o)) && h.mapping().handles(o, Err(x));
                assert(h.base().handles(input, Ok(o)));
            },
            Err(Either::A(_)) => {},
        }
    }
}

/// When the first handler can only fail, with `e`, the chain can only fail with
/// `Either::A(e)`.
pub proof fn lemma_and_then_on_failure<H1, H2>(
    h: AndThen<H1, H2>,
    input: H1::Input,
    e: H1::Error,
    r: Result<H2::Output, Either<H1::Error, H2::Error>>,
) where H1: Handler, H2: Handler<Input = H1::Output>
    requires
        h.base().handles(input, Err(e)),
        forall|x: Result<H1::Output, H1::Error>| #[trigger] h.base().handles(input, x) ==> x == Err::<
            H1::Output,
            H1::Error,
        >(e),
    ensures
        h.handles(input, r) <==> r == Err::<H2::Output, Either<H1::Error, H2::Error>>(Either::A(e)),
{
    match r {
        Ok(v) => {
            if h.handles(input, r) {
                let o = choose|o: H1::Output| h.base().handles(input, Ok(o)) && h.mapping().handles(o, Ok(v));
                assert(h.base().handles(input, Ok(o)));
            }
        },
        Err(Either::B(x)) => {
            if h.handles(input, r) {
                let o = choose|o: H1::Output| h.base().handles(input, Ok(o)) && h.mapping().handles(o, Err(x));
                assert(h.base().handles(input, Ok(o)));
            }
        },
        Err(Either::A(a)) => {
            if h.handles(input, r) {
                assert(h.base().handles(input, Err(a)));
            }
        },
    }
}

/// When the first handler can only succeed, with `o`, the chain's outcomes are the
/// second handler's outcomes on `o`, its errors as `Either::B`.
pub proof fn lemma_and_then_on_success<H1, H2>(
    h: AndThen<H1, H2>,
    input: H1::Input,
    o: H1::Output,
    r: Result<H2::Output, Either<H1::Error, H2::Error>>,
) where H1: Handler, H2: Handler<Input = H1::Output>
    requires
        h.base().handles(input, Ok(o)),
        forall|x: Result<H1::Output, H1::Error>| #[trigger] h.base().handles(input, x) ==> x == Ok::<
            H1::Output,
            H1::Error,
        >(o),
    ensures
        h.handles(input, r) <==> match r {
            Ok(v) => h.mapping().handles(o, Ok(v)),
            Err(Either::A(_)) => false,
            Err(Either::B(x)) => h.mapping().handles(o, Err(x)),
        },
{
    match r {
        Ok(v) => {
            if h.handles(input, r) {
                let o2 = choose|o2: H1::Output| h.base().handles(input, Ok(o2)) && h.mapping().handles(o2, Ok(v));
                assert(h.base().handles(input, Ok(o2)));
            }
            if h.mapping().handles(o, Ok(v)) {
                assert(h.base().handles(input, Ok(o)) && h.mapping().handles(o, Ok(v)));
            }
        },
        Err(Either::B(x)) => {
            if h.handles(input, r) {
                let o2 = choose|o2: H1::Output| h.base().handles(input, Ok(o2)) && h.mapping().handles(o2, Err(x));
                assert(h.base().handles(input, Ok(o2)));
            }
            if h.mapping().handles(o, Err(x)) {
                assert(h.base().handles(input, Ok(o)) && h.mapping().handles(o, Err(x)));
            }
        },
        Err(Either::A(a)) => {
            if h.handles(input, r) {
                assert(h.base().handles(input, Err(a)));
            }
        },
    }
}

} // verus!
