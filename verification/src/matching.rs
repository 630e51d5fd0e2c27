//! Matching of request paths against segment patterns, with no method.

pub mod path;

pub use path::{path, Path};

use vstd::prelude::*;
use crate::handler::Handler;
use crate::handler::and_then::{AndThen, HandlerExt};

verus! {

/// A handler failed to match.
#[derive(Debug, PartialEq, Eq)]
pub struct MatchError;

/// A chain of matching handlers, each run on what the ones before it produced.
pub struct Matching<H> {
    handler: H,
}

impl<H> Matching<H> {
    /// The handler the chain runs.
    pub closed spec fn spec_handler(&self) -> H {
        self.handler
    }

    /// A chain that runs `handler`.
    pub fn new(handler: H) -> (m: Matching<H>)
        ensures
            m.spec_handler() == handler,
    {
        Matching { handler }
    }

    /// The handler the chain runs.
    pub fn handler(self) -> (h: H)
        ensures
            h == self.spec_handler(),
    {
        self.handler
    }
}

impl<H: Handler> Matching<H> {
    /// The chain extended by `path`, which runs on the output of the chain so far; a
    /// failure of the chain so far comes out as `Either::A`, one of `path` as
    /// `Either::B`.
    pub fn path<P>(self, path: P) -> (m: Matching<AndThen<H, P>>) where P: Handler<Input = H::Output>
        ensures
            m.spec_handler().base() == self.spec_handler(),
            m.spec_handler().mapping() == path,
    {
        Matching::new(self.handler.and_then(path))
    }
}

} // verus!
