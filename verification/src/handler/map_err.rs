//! Passing the error of a handler through a function.

use vstd::prelude::*;
use crate::handler::Handler;

verus! {

/// Runs `handler`, then `mapping` on its error; outputs pass unchanged.
pub struct MapErr<H, M> {
    handler: H,
    mapping: M,
}

impl<H, M> MapErr<H, M> {
    pub closed spec fn inner(&self) -> H {
        self.handler
    }

    pub closed spec fn mapping(&self) -> M {
        self.mapping
    }
}

impl<H, M, E> Handler for MapErr<H, M> where H: Handler, M: Fn(H::Error) -> E {
    type Input = H::Input;
    type Output = H::Output;
    type Error = E;

    open spec fn accepts(&self, input: H::Input) -> bool {
        &&& self.inner().accepts(input)
        &&& forall|e: H::Error| #[trigger]
            self.inner().handles(input, Err(e)) ==> self.mapping().requires((e,))
    }

    open spec fn handles(&self, input: H::Input, result: Result<H::Output, E>) -> bool {
        match result {
            Ok(v) => self.inner().handles(input, Ok(v)),
            Err(e) => exists|e0: H::Error|
                #![trigger self.mapping().ensures((e0,), e)]
                self.inner().handles(input, Err(e0)) && self.mapping().ensures((e0,), e),
        }
    }

    fn handle(&mut self, input: H::Input) -> (result: Result<H::Output, E>) {
        let ghost start = *self;
        match self.handler.handle(input) {
            Ok(output) => {
                let r: Result<H::Output, E> = Ok(output);
                assert(r is Ok && r->Ok_0 == output);
                r
            },
            Err(err) => {
                let ghost e0 = err;
                let e = (self.mapping)(err);
                let r: Result<H::Output, E> = Err(e);
                assert(start.inner().handles(input, Err(e0)) && start.mapping().ensures((e0,), e));
                assert(r is Err && r->Err_0 == e);
                r
            },
        }
    }
}

/// Mapping of handler errors.
pub trait HandlerExt: Handler {
    /// A handler that passes the error of `self` through `mapping`.
    fn map_err<M, E>(self, mapping: M) -> (r: MapErr<Self, M>) where M: Fn(Self::Error) -> E
        ensures
            r.inner() == self,
            r.mapping() == mapping,
    {
        MapErr { handler: self, mapping }
    }
}

impl<T: Handler> HandlerExt for T {}

/// A handler with a mapped error succeeds exactly as its inner handler does, with
/// the same output; its errors are the mapping's results on errors of the inner
/// handler.
pub proof fn lemma_map_err_outcomes<H, M, E>(h: MapErr<H, M>, input: H::Input, v: H::Output, e: E) where
    H: Handler,
    M: Fn(H::Error) -> E,

    ensures
        <MapErr<H, M> as Handler>::handles(&h, input, Ok(v)) <==> h.inner().handles(input, Ok(v)),
        <MapErr<H, M> as Handler>::handles(&h, input, Err(e)) <==> exists|e0: H::Error| #[trigger]
            h.mapping().ensures((e0,), e) && h.inner().handles(input, Err(e0)),
{
    let r: Result<H::Output, E> = Err(e);
    if <MapErr<H, M> as Handler>::handles(&h, input, r) {
        let e0 = choose|e0: H::Error| h.inner().handles(input, Err(e0)) && h.mapping().ensures((e0,), e);
        assert(h.mapping().ensures((e0,), e) && h.inner().handles(input, Err(e0)));
    }
    if exists|e0: H::Error| #[trigger] h.mapping().ensures((e0,), e) && h.inner().handles(input, Err(e0)) {
        let e0 = choose|e0: H::Error| #[trigger] h.mapping().ensures((e0,), e) && h.inner().handles(input, Err(e0));
        assert(exists|e1: H::Error|
            #![trigger h.mapping().ensures((e1,), e)]
            h.inner().handles(input, Err(e1)) && h.mapping().ensures((e1,), e));
        assert(r is Err && r->Err_0 == e);
        assert(<MapErr<H, M> as Handler>::handles(&h, input, r));
    }
}

} // verus!
