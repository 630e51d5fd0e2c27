//! Paths: a list of segment patterns, matched against the path of the URL of a
//! request, whatever its method.

use vstd::prelude::*;
use crate::handler::{parse_url_path, url_path, Context, Handler, Request};
use crate::segment::{
    invalid_reason,
    dynamic_kinds, kinds,
    url_path_segments, url_segments, values, walk, walk_segments, Capture, Kind, Segment,
    SegmentValue, Walk,
};
use crate::server::path::SegmentError;

verus! {

/// Why a path did not match a request.
#[derive(Debug, PartialEq, Eq)]
pub enum PathMatchError<E> {
    /// The URL has no path segments, a fixed segment is missing or different, or
    /// segments are left over.
    Static,
    /// A dynamic segment does not read as its kind.
    Dynamic(E),
}

/// A handler whose input, output and error are contexts, the error holding a
/// `PathMatchError`.
pub trait PathHandler: Handler<
    Input = Context<<Self as PathHandler>::InnerInput>,
    Output = Context<<Self as PathHandler>::InnerOutput>,
    Error = Context<PathMatchError<<Self as PathHandler>::InnerError>>,
> {
    type InnerInput;
    type InnerOutput;
    type InnerError;
}

impl<T, I, O, E> PathHandler for T where
    T: Handler<Input = Context<I>, Output = Context<O>, Error = Context<PathMatchError<E>>>,
 {
    type InnerInput = I;
    type InnerOutput = O;
    type InnerError = E;
}

/// What a path answers a request with the given URI.
pub open spec fn path_outcome(patterns: Seq<Segment>, request_uri: Seq<char>) -> Result<
    Seq<SegmentValue>,
    PathMatchError<SegmentError>,
> {
    match url_path(request_uri) {
        None => Err(PathMatchError::Static),
        Some(p) => match url_segments(p) {
            None => Err(PathMatchError::Static),
            Some(segments) => match walk(patterns, segments, 0) {
                Walk::Missing => Err(PathMatchError::Static),
                Walk::Invalid(i) => Err(
                    PathMatchError::Dynamic(
                        SegmentError {
                            position: i as usize,
                            reason: invalid_reason(patterns, segments, i as int),
                        },
                    ),
                ),
                Walk::Done(v) => if segments.len() > patterns.len() {
                    Err(PathMatchError::Static)
                } else {
                    Ok(v)
                },
            },
        },
    }
}

/// A path matches only when the URL has no more segments than it has patterns;
/// when every pattern is met and segments are left over, the answer is
/// `PathMatchError::Static`.
pub proof fn lemma_no_leftover_segments(patterns: Seq<Segment>, request_uri: Seq<char>)
    ensures
        path_outcome(patterns, request_uri) is Ok ==> (url_path(request_uri) matches Some(p) && url_segments(p) matches Some(segments)
            && segments.len() <= patterns.len()),
        (url_path(request_uri) matches Some(p) && url_segments(p) matches Some(segments)
            && walk(patterns, segments, 0) is Done && segments.len() > patterns.len())
            ==> path_outcome(patterns, request_uri) == Err::<
            Seq<SegmentValue>,
            PathMatchError<SegmentError>,
        >(PathMatchError::Static),
{
}

/// A path: the patterns of its segments.
pub struct Path<I> {
    segments: Vec<Segment>,
    _input: core::marker::PhantomData<I>,
}

impl<I> Path<I> {
    pub closed spec fn spec_segments(&self) -> Seq<Segment> {
        self.segments@
    }

    /// The path with one more segment, which must equal `segment`.
    pub fn static_segment(self, segment: &str) -> (p: Path<I>)
        ensures
            p.spec_segments().len() == self.spec_segments().len() + 1,
            p.spec_segments().drop_last() == self.spec_segments(),
            p.spec_segments().last() matches Segment::Static(t) && t@ == segment@,
    {
        let Path { mut segments, .. } = self;
        segments.push(Segment::Static(segment.to_owned()));
        Path { segments, _input: core::marker::PhantomData }
    }

    /// The path with one more segment, which is read as a value of `kind`.
    pub fn dynamic_segment(self, kind: Kind) -> (p: Path<I>)
        ensures
            p.spec_segments() == self.spec_segments().push(Segment::Dynamic(kind)),
    {
        let Path { mut segments, .. } = self;
        segments.push(Segment::Dynamic(kind));
        Path { segments, _input: core::marker::PhantomData }
    }

    /// What the path answers `request` with.
    pub open spec fn outcome(&self, request: Request) -> Result<
        Seq<SegmentValue>,
        PathMatchError<SegmentError>,
    > {
        path_outcome(self.spec_segments(), request.spec_uri())
    }
}

/// A path with no segments yet: it matches the URL path `/`.
pub fn path<I>() -> (p: Path<I>)
    ensures
        p.spec_segments() == Seq::<Segment>::empty(),
{
    Path { segments: Vec::new(), _input: core::marker::PhantomData }
}

impl<I> Handler for Path<I> {
    type Input = Context<I>;
    type Output = Context<(I, Vec<Capture>)>;
    type Error = Context<PathMatchError<SegmentError>>;

    open spec fn accepts(&self, input: Context<I>) -> bool {
        true
    }

    open spec fn handles(
        &self,
        input: Context<I>,
        result: Result<Context<(I, Vec<Capture>)>, Context<PathMatchError<SegmentError>>>,
    ) -> bool {
        match result {
            Ok(c) => c.spec_request() == input.spec_request() && c.spec_output().0
                == input.spec_output() && self.outcome(input.spec_request()) == Ok::<
                Seq<SegmentValue>,
                PathMatchError<SegmentError>,
            >(values(c.spec_output().1@)) && kinds(c.spec_output().1@) == dynamic_kinds(
                self.spec_segments(),
            ),
            Err(c) => c.spec_request() == input.spec_request() && self.outcome(input.spec_request())
                == Err::<Seq<SegmentValue>, PathMatchError<SegmentError>>(c.spec_output()),
        }
    }

    fn handle(&mut self, input: Context<I>) -> (result: Result<
        Context<(I, Vec<Capture>)>,
        Context<PathMatchError<SegmentError>>,
    >) {
        let Some(url) = parse_url_path(input.request().uri()) else {
            return Err(input.with_output(PathMatchError::Static));
        };
        let Some(segments) = url_path_segments(url.as_str()) else {
            return Err(input.with_output(PathMatchError::Static));
        };
        match walk_segments(&self.segments, &segments) {
            Err(None) => Err(input.with_output(PathMatchError::Static)),
            Err(Some((i, reason))) => Err(
                input.with_output(PathMatchError::Dynamic(SegmentError { position: i, reason })),
            ),
            Ok(captures) => {
                if segments.len() > self.segments.len() {
                    Err(input.with_output(PathMatchError::Static))
                } else {
                    let Context { request, output } = input;
                    Ok(Context { request, output: (output, captures) })
                }
            },
        }
    }
}

} // verus!
