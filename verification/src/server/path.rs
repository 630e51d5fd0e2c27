//! Routes of a server: a method and a list of segment patterns, matched against the
//! path of a request.

use vstd::prelude::*;
use crate::handler::{Context, Handler, Method, Request};
use crate::segment::{
    failure, invalid_reason, ParseFailure,
    dynamic_kinds, kinds,
    free_of, http_path_segments, http_segments, join_on, lemma_http_segments_of_joined,
    lemma_walk_fitting, read_segments, segments_fit, spec_parse_segment, split_on, values, walk,
    walk_segments, Capture, Kind, Segment, SegmentValue, Walk,
};

verus! {

/// Why a route did not answer a request.
#[derive(Debug, PartialEq, Eq)]
pub enum Error<E> {
    /// The request is not for this route; another route may answer it.
    PathMatch,
    /// The request is for this route, but it cannot be answered.
    Fatal(E),
}

/// A handler that takes a fresh context and answers with a context holding its
/// output, or with a context holding a route error.
pub trait PathHandler: Handler<
    Input = Context<()>,
    Output = Context<<Self as PathHandler>::InnerOutput>,
    Error = Context<Error<<Self as PathHandler>::InnerError>>,
> {
    type InnerOutput;
    type InnerError;
}

impl<T, O, E> PathHandler for T where
    T: Handler<Input = Context<()>, Output = Context<O>, Error = Context<Error<E>>>,
 {
    type InnerOutput = O;
    type InnerError = E;
}

impl<E> Error<E> {
    /// The error inside `Fatal`, or `None` for `PathMatch`.
    pub fn fatal(self) -> (r: Option<E>)
        ensures
            r == match self {
                Error::Fatal(e) => Some(e),
                Error::PathMatch => None,
            },
    {
        if let Error::Fatal(error) = self {
            Some(error)
        } else {
            None
        }
    }
}

/// A dynamic segment of a request path that does not read as its kind.
#[derive(Clone, Copy, Debug, PartialEq, Eq, Structural)]
pub struct SegmentError {
    /// The position of the segment in the path.
    pub position: usize,
    /// Why it does not read as its kind.
    pub reason: ParseFailure,
}

/// What a route answers a request with the given method and path: the values read
/// from its dynamic segments, or the error.
pub open spec fn route_outcome(
    method: Seq<char>,
    patterns: Seq<Segment>,
    request_method: Seq<char>,
    request_path: Seq<char>,
) -> Result<Seq<SegmentValue>, Error<SegmentError>> {
    if request_method != method {
        Err(Error::PathMatch)
    } else {
        let segments = http_segments(request_path);
        match walk(patterns, segments, 0) {
            Walk::Missing => Err(Error::PathMatch),
            Walk::Invalid(i) => Err(
                Error::Fatal(
                    SegmentError {
                        position: i as usize,
                        reason: invalid_reason(patterns, segments, i as int),
                    },
                ),
            ),
            Walk::Done(v) => if segments.len() > patterns.len() {
                Err(Error::PathMatch)
            } else {
                Ok(v)
            },
        }
    }
}

/// A route answers only requests with its method whose path has no more segments
/// than it has patterns.
pub proof fn lemma_route_needs_method_and_no_leftover(
    method: Seq<char>,
    patterns: Seq<Segment>,
    request_method: Seq<char>,
    request_path: Seq<char>,
)
    ensures
        route_outcome(method, patterns, request_method, request_path) is Ok ==> request_method
            == method && http_segments(request_path).len() <= patterns.len(),
{
}

/// A route: the method it answers and the patterns of its path segments.
pub struct Path {
    method: Method,
    segments: Vec<Segment>,
}

impl Path {
    pub closed spec fn spec_method(&self) -> Seq<char> {
        self.method@
    }

    pub closed spec fn spec_segments(&self) -> Seq<Segment> {
        self.segments@
    }

    /// A route for `method` with no segments: it answers the path `/` (or the empty
    /// path).
    pub fn new(method: Method) -> (p: Path)
        ensures
            p.spec_method() == method@,
            p.spec_segments() == Seq::<Segment>::empty(),
    {
        Path { method, segments: Vec::new() }
    }

    /// The route with one more segment, which must equal `segment`.
    pub fn static_segment(self, segment: &str) -> (p: Path)
        ensures
            p.spec_method() == self.spec_method(),
            p.spec_segments().len() == self.spec_segments().len() + 1,
            p.spec_segments().drop_last() == self.spec_segments(),
            p.spec_segments().last() matches Segment::Static(t) && t@ == segment@,
    {
        let Path { method, mut segments } = self;
        segments.push(Segment::Static(segment.to_owned()));
        Path { method, segments }
    }

    /// The route with one more segment, which is read as a value of `kind`.
    pub fn dynamic_segment(self, kind: Kind) -> (p: Path)
        ensures
            p.spec_method() == self.spec_method(),
            p.spec_segments() == self.spec_segments().push(Segment::Dynamic(kind)),
    {
        let Path { method, mut segments } = self;
        segments.push(Segment::Dynamic(kind));
        Path { method, segments }
    }

    /// What the route answers `request` with.
    pub open spec fn outcome(&self, request: Request) -> Result<
        Seq<SegmentValue>,
        Error<SegmentError>,
    > {
        route_outcome(self.spec_method(), self.spec_segments(), request.spec_method(), request.spec_path())
    }
}

/// A route for `method` with no segments yet.
pub fn path(method: Method) -> (p: Path)
    ensures
        p.spec_method() == method@,
        p.spec_segments() == Seq::<Segment>::empty(),
{
    Path::new(method)
}

impl Handler for Path {
    type Input = Context<()>;
    type Output = Context<Vec<Capture>>;
    type Error = Context<Error<SegmentError>>;

    open spec fn accepts(&self, input: Context<()>) -> bool {
        true
    }

    open spec fn handles(
        &self,
        input: Context<()>,
        result: Result<Context<Vec<Capture>>, Context<Error<SegmentError>>>,
    ) -> bool {
        match result {
            Ok(c) => c.spec_request() == input.spec_request() && self.outcome(input.spec_request())
                == Ok::<Seq<SegmentValue>, Error<SegmentError>>(values(c.spec_output()@))
                && kinds(c.spec_output()@) == dynamic_kinds(self.spec_segments()),
            Err(c) => c.spec_request() == input.spec_request() && self.outcome(input.spec_request())
                == Err::<Seq<SegmentValue>, Error<SegmentError>>(c.spec_output()),
        }
    }

    fn handle(&mut self, input: Context<()>) -> (result: Result<
        Context<Vec<Capture>>,
        Context<Error<SegmentError>>,
    >) {
        let segments = http_path_segments(input.request().path());
        if !input.request().method().same(&self.method) {
            return Err(input.with_output(Error::PathMatch));
        }
        match walk_segments(&self.segments, &segments) {
            Err(None) => Err(input.with_output(Error::PathMatch)),
            Err(Some((i, reason))) => Err(
                input.with_output(Error::Fatal(SegmentError { position: i, reason })),
            ),
            Ok(captures) => {
                if segments.len() > self.segments.len() {
                    Err(input.with_output(Error::PathMatch))
                } else {
                    Ok(input.with_output(captures))
                }
            },
        }
    }
}


/// A route answers a request with its own method whose path is `/` followed by
/// segments that suit its patterns (no segment holding a `/`, the last one not
/// empty), with or without a trailing `/`: it reads the dynamic segments, in order.
pub proof fn lemma_route_matches_fitting_path(
    method: Seq<char>,
    patterns: Seq<Segment>,
    parts: Seq<Seq<char>>,
)
    requires
        segments_fit(patterns, parts),
        forall|i: int| 0 <= i < parts.len() ==> free_of(#[trigger] parts[i], '/'),
        parts.len() > 0 ==> parts.last().len() > 0,
    ensures
        route_outcome(method, patterns, method, seq!['/'] + join_on(parts, '/')) == Ok::<
            Seq<SegmentValue>,
            Error<SegmentError>,
        >(read_segments(patterns, parts, 0)),
        parts.len() > 0 ==> route_outcome(
            method,
            patterns,
            method,
            seq!['/'] + join_on(parts, '/') + seq!['/'],
        ) == Ok::<Seq<SegmentValue>, Error<SegmentError>>(read_segments(patterns, parts, 0)),
{
    lemma_http_segments_of_joined(parts);
    lemma_walk_fitting(patterns, parts, 0);
}

/// A route leaves every request with another method to other routes.
pub proof fn lemma_route_other_method(
    method: Seq<char>,
    patterns: Seq<Segment>,
    request_method: Seq<char>,
    request_path: Seq<char>,
)
    requires
        request_method != method,
    ensures
        route_outcome(method, patterns, request_method, request_path) == Err::<
            Seq<SegmentValue>,
            Error<SegmentError>,
        >(Error::PathMatch),
{
}

/// A trailing `/` does not change the answer of a route, for a path that starts
/// with `/`, has more than that one character and does not end with `/`.
pub proof fn lemma_route_trailing_slash(
    method: Seq<char>,
    patterns: Seq<Segment>,
    request_method: Seq<char>,
    request_path: Seq<char>,
)
    requires
        request_path.len() > 1,
        request_path[0] == '/',
        request_path.last() != '/',
    ensures
        route_outcome(method, patterns, request_method, request_path.push('/')) == route_outcome(
            method,
            patterns,
            request_method,
            request_path,
        ),
{
    let rest = request_path.drop_first();
    assert(request_path.push('/').drop_first() =~= rest.push('/'));
    assert(rest.push('/').drop_last() =~= rest);
    crate::segment::lemma_split_on_nonempty(rest, '/');
    assert(split_on(rest, '/').last().len() > 0) by {
        assert(rest.last() == request_path.last());
        assert(rest.drop_last().push(rest.last()) =~= rest);
        crate::segment::lemma_split_on_nonempty(rest.drop_last(), '/');
    }
    assert(split_on(rest.push('/'), '/').drop_last() =~= split_on(rest, '/'));
    assert(http_segments(request_path.push('/')) =~= http_segments(request_path));
}

/// Walking stops at an unreadable segment only at a dynamic pattern whose segment
/// does not read as its kind.
proof fn lemma_walk_invalid(patterns: Seq<Segment>, segments: Seq<Seq<char>>, i: int, k: nat)
    requires
        0 <= i,
        walk(patterns, segments, i) == Walk::Invalid(k),
    ensures
        i <= k < patterns.len(),
        k < segments.len(),
        patterns[k as int] matches Segment::Dynamic(kind) && spec_parse_segment(
            kind,
            segments[k as int],
        ) is None,
    decreases patterns.len() - i,
{
    if i < patterns.len() {
        match patterns[i] {
            Segment::Static(_) => {
                lemma_walk_invalid(patterns, segments, i + 1, k);
            },
            Segment::Dynamic(kind) => {
                if spec_parse_segment(kind, segments[i]) is Some {
                    lemma_walk_invalid(patterns, segments, i + 1, k);
                }
            },
        }
    }
}

/// A route fails fatally only for a segment of the request path that stands at a
/// dynamic pattern and does not read as its kind; the error tells why.
pub proof fn lemma_route_fatal(
    method: Seq<char>,
    patterns: Seq<Segment>,
    request_method: Seq<char>,
    request_path: Seq<char>,
    position: usize,
    reason: ParseFailure,
)
    requires
        patterns.len() <= usize::MAX,
        route_outcome(method, patterns, request_method, request_path) == Err::<
            Seq<SegmentValue>,
            Error<SegmentError>,
        >(Error::Fatal(SegmentError { position, reason })),
    ensures
        request_method == method,
        position < patterns.len(),
        position < http_segments(request_path).len(),
        patterns[position as int] matches Segment::Dynamic(kind) && spec_parse_segment(
            kind,
            http_segments(request_path)[position as int],
        ) is None && reason == failure(kind, http_segments(request_path)[position as int]),
{
    let segments = http_segments(request_path);
    match walk(patterns, segments, 0) {
        Walk::Invalid(k) => {
            lemma_walk_invalid(patterns, segments, 0, k);
            assert(k as usize == position);
            assert(k as int == position as int);
        },
        _ => {},
    }
}

} // verus!
