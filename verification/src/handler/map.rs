//! Passing the output of a handler through a function.

use vstd::prelude::*;
use crate::handler::Handler;

verus! {

/// Runs `handler`, then `mapping` on its output; errors pass unchanged.
pub struct Mapped<H, M> {
    handler: H,
    mapping: M,
}

impl<H, M> Mapped<H, M> {
    pub closed spec fn inner(&self) -> H {
        self.handler
    }

    pub closed spec fn mapping(&self) -> M {
        self.mapping
    }
}

impl<H, M, O> Handler for Mapped<H, M> where H: Handler, M: Fn(H::Output) -> O {
    type Input = H::Input;
    type Output = O;
    type Error = H::Error;

    open spec fn accepts(&self, input: H::Input) -> bool {
        &&& self.inner().accepts(input)
        &&& forall|o: H::Output| #[trigger]
            self.inner().handles(input, Ok(o)) ==> self.mapping().requires((o,))
    }

    open spec fn handles(&self, input: H::Input, result: Result<O, H::Error>) -> bool {
        match result {
            Err(e) => self.inner().handles(input, Err(e)),
            Ok(v) => exists|o: H::Output|
                #![trigger self.mapping().ensures((o,), v)]
                self.inner().handles(input, Ok(o)) && self.mapping().ensures((o,), v),
        }
    }

    fn handle(&mut self, input: H::Input) -> (result: Result<O, H::Error>) {
        let ghost start = *self;
        match self.handler.handle(input) {
            Err(err) => {
                let r: Result<O, H::Error> = Err(err);
                assert(r is Err && r->Err_0 == err);
                r
            },
            Ok(output) => {
                let ghost o = output;
                let v = (self.mapping)(output);
                let r: Result<O, H::Error> = Ok(v);
                assert(start.inner().handles(input, Ok(o)) && start.mapping().ensures((o,), v));
                assert(r is Ok && r->Ok_0 == v);
                r
            },
        }
    }
}

/// Mapping of handler outputs.
pub trait HandlerExt: Handler {
    /// A handler that passes the output of `self` through `mapping`.
    fn map<M, O>(self, mapping: M) -> (r: Mapped<Self, M>) where M: Fn(Self::Output) -> O
        ensures
            r.inner() == self,
            r.mapping() == mapping,
    {
        Mapped { handler: self, mapping }
    }
}

impl<T: Handler> HandlerExt for T {}

/// A mapped handler fails exactly as its inner handler does, with the same error;
/// its outputs are the mapping's results on outputs of the inner handler.
pub proof fn lemma_map_outcomes<H, M, O>(h: Mapped<H, M>, input: H::Input, e: H::Error, v: O) where
    H: Handler,
    M: Fn(H::Output) -> O,

    ensures
        <Mapped<H, M> as Handler>::handles(&h, input, Err(e)) <==> h.inner().handles(input, Err(e)),
        <Mapped<H, M> as Handler>::handles(&h, input, Ok(v)) <==> exists|o: H::Output| #[trigger]
            h.mapping().ensures((o,), v) && h.inner().handles(input, Ok(o)),
{
    let r: Result<O, H::Error> = Ok(v);
    if <Mapped<H, M> as Handler>::handles(&h, input, r) {
        let o = choose|o: H::Output| h.inner().handles(input, Ok(o)) && h.mapping().ensures((o,), v);
        assert(h.mapping().ensures((o,), v) && h.inner().handles(input, Ok(o)));
    }
    if exists|o: H::Output| #[trigger] h.mapping().ensures((o,), v) && h.inner().handles(input, Ok(o)) {
        let o = choose|o: H::Output| #[trigger] h.mapping().ensures((o,), v) && h.inner().handles(input, Ok(o));
        assert(h.inner().handles(input, Ok(o)) && h.mapping().ensures((o,), v));
        assert(exists|o2: H::Output|
            #![trigger h.mapping().ensures((o2,), v)]
            h.inner().handles(input, Ok(o2)) && h.mapping().ensures((o2,), v));
        assert(r is Ok && r->Ok_0 == v);
        assert(<Mapped<H, M> as Handler>::handles(&h, input, r));
    }
}

/// When the inner handler can only fail, with `e`, the mapped handler can only
/// fail with `e`.
pub proof fn lemma_map_on_failure<H, M, O>(h: Mapped<H, M>, input: H::Input, e: H::Error, r: Result<O, H::Error>) where
    H: Handler,
    M: Fn(H::Output) -> O,

    requires
        h.inner().handles(input, Err(e)),
        forall|x: Result<H::Output, H::Error>| #[trigger] h.inner().handles(input, x) ==> x == Err::<
            H::Output,
            H::Error,
        >(e),
    ensures
        <Mapped<H, M> as Handler>::handles(&h, input, r) <==> r == Err::<O, H::Error>(e),
{
    match r {
        Ok(v) => {
            if <Mapped<H, M> as Handler>::handles(&h, input, r) {
                let o = choose|o: H::Output| h.inner().handles(input, Ok(o)) && h.mapping().ensures((o,), v);
                assert(h.inner().handles(input, Ok(o)));
            }
        },
        Err(x) => {},
    }
}

/// When the inner handler can only succeed, with `o`, the mapped handler can only
/// succeed, with a result of the mapping on `o`.
pub proof fn lemma_map_on_success<H, M, O>(h: Mapped<H, M>, input: H::Input, o: H::Output, r: Result<O, H::Error>) where
    H: Handler,
    M: Fn(H::Output) -> O,

    requires
        h.inner().handles(input, Ok(o)),
        forall|x: Result<H::Output, H::Error>| #[trigger] h.inner().handles(input, x) ==> x == Ok::<
            H::Output,
            H::Error,
        >(o),
    ensures
        <Mapped<H, M> as Handler>::handles(&h, input, r) <==> match r {
            Ok(v) => h.mapping().ensures((o,), v),
            Err(_) => false,
        },
{
    match r {
        Ok(v) => {
            if <Mapped<H, M> as Handler>::handles(&h, input, r) {
                let o2 = choose|o2: H::Output| h.inner().handles(input, Ok(o2)) && h.mapping().ensures((o2,), v);
                assert(h.inner().handles(input, Ok(o2)));
            }
            if h.mapping().ensures((o,), v) {
                assert(exists|o2: H::Output|
                    #![trigger h.mapping().ensures((o2,), v)]
                    h.inner().handles(input, Ok(o2)) && h.mapping().ensures((o2,), v));
                assert(r is Ok && r->Ok_0 == v);
            }
        },
        Err(x) => {
            if <Mapped<H, M> as Handler>::handles(&h, input, r) {
                assert(h.inner().handles(input, Err(x)));
            }
        },
    }
}

} // verus!
