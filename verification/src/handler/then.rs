//! Handing the whole result of a handler to a second one.

use vstd::prelude::*;
use crate::handler::Handler;

verus! {

/// Runs `base`, then `next` on its result, whether output or error.
pub struct Then<H1, H2> {
    base: H1,
    next: H2,
}

impl<H1, H2> Then<H1, H2> {
    pub closed spec fn base(&self) -> H1 {
        self.base
    }

    pub closed spec fn next(&self) -> H2 {
        self.next
    }
}

impl<H1, H2> Handler for Then<H1, H2> where
    H1: Handler,
    H2: Handler<Input = Result<H1::Output, H1::Error>>,
 {
    type Input = H1::Input;
    type Output = H2::Output;
    type Error = H2::Error;

    open spec fn accepts(&self, input: H1::Input) -> bool {
        &&& self.base().accepts(input)
        &&& forall|r: Result<H1::Output, H1::Error>| #[trigger]
            self.base().handles(input, r) ==> self.next().accepts(r)
    }

    open spec fn handles(&self, input: H1::Input, result: Result<H2::Output, H2::Error>) -> bool {
        exists|r: Result<H1::Output, H1::Error>|
            #![trigger self.next().handles(r, result)]
            self.base().handles(input, r) && self.next().handles(r, result)
    }

    fn handle(&mut self, input: H1::Input) -> (result: Result<H2::Output, H2::Error>) {
        let ghost start = *self;
        let first = self.base.handle(input);
        let ghost r = first;
        let result = self.next.handle(first);
        assert(start.base().handles(input, r) && start.next().handles(r, result));
        result
    }
}

/// Sequencing of handlers on whole results.
pub trait HandlerExt: Handler {
    /// A handler that runs `self`, then `next` on its result.
    fn followed_by<H>(self, next: H) -> (r: Then<Self, H>) where
        H: Handler<Input = Result<Self::Output, Self::Error>>,
        ensures
            r.base() == self,
            r.next() == next,
    {
        Then { base: self, next }
    }
}

impl<T: Handler> HandlerExt for T {}

} // verus!
