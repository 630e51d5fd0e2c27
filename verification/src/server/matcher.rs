//! Matchers: a method and a list of segment patterns, matched against the path of
//! the URL of a request.

use vstd::prelude::*;
use crate::handler::{parse_url_path, url_path, Context, Handler, Method, Request};
use crate::segment::{
    invalid_reason,
    dynamic_kinds, kinds,
    split_on, free_of, join_on, lemma_split_join, lemma_walk_fitting, read_segments, segments_fit,
    url_path_segments, url_segments, values, walk, walk_segments, Capture, Kind, Segment,
    SegmentValue, Walk,
};
use crate::server::path::SegmentError;

verus! {

/// Why a matcher did not match a request.
#[derive(Debug, PartialEq, Eq)]
pub enum MatchError<E> {
    /// A fixed segment is missing or different, or segments are left over.
    Static,
    /// A dynamic segment does not read as its kind.
    Dynamic(E),
    /// The request has another method.
    IncorrectMethod,
}

/// A handler whose input, output and error are contexts, the error holding a
/// `MatchError`.
pub trait MatcherHandler: Handler<
    Input = Context<<Self as MatcherHandler>::InnerInput>,
    Output = Context<<Self as MatcherHandler>::InnerOutput>,
    Error = Context<MatchError<<Self as MatcherHandler>::InnerError>>,
> {
    type InnerInput;
    type InnerOutput;
    type InnerError;
}

impl<T, I, O, E> MatcherHandler for T where
    T: Handler<Input = Context<I>, Output = Context<O>, Error = Context<MatchError<E>>>,
 {
    type InnerInput = I;
    type InnerOutput = O;
    type InnerError = E;
}

/// The path segments of the URL of a request: none when the URI is no URL, or its
/// path has no leading `/`.
pub open spec fn request_url_segments(uri: Seq<char>) -> Seq<Seq<char>> {
    match url_path(uri) {
        Some(p) => match url_segments(p) {
            Some(s) => s,
            None => Seq::empty(),
        },
        None => Seq::empty(),
    }
}

/// What a matcher answers a request with the given method and URI.
pub open spec fn matcher_outcome(
    method: Seq<char>,
    patterns: Seq<Segment>,
    request_method: Seq<char>,
    request_uri: Seq<char>,
) -> Result<Seq<SegmentValue>, MatchError<SegmentError>> {
    if request_method != method {
        Err(MatchError::IncorrectMethod)
    } else {
        let segments = request_url_segments(request_uri);
        match walk(patterns, segments, 0) {
            Walk::Missing => Err(MatchError::Static),
            Walk::Invalid(i) => Err(
                MatchError::Dynamic(
                    SegmentError {
                        position: i as usize,
                        reason: invalid_reason(patterns, segments, i as int),
                    },
                ),
            ),
            Walk::Done(v) => if segments.len() > patterns.len() && segments[patterns.len() as int]
                != Seq::<char>::empty() {
                Err(MatchError::Static)
            } else {
                Ok(v)
            },
        }
    }
}

/// A matcher answers only requests with its method whose URL has no segment past
/// its patterns but an empty one (a trailing slash).
pub proof fn lemma_matcher_no_leftover(
    method: Seq<char>,
    patterns: Seq<Segment>,
    request_method: Seq<char>,
    request_uri: Seq<char>,
)
    ensures
        matcher_outcome(method, patterns, request_method, request_uri) is Ok ==> {
            &&& request_method == method
            &&& request_url_segments(request_uri).len() <= patterns.len()
                || request_url_segments(request_uri)[patterns.len() as int] == Seq::<char>::empty()
        },
{
}

/// The segments of the URL of `uri`, as `request_url_segments` says.
fn segments_of_url(uri: &str) -> (s: Vec<String>)
    ensures
        s.deep_view() == request_url_segments(uri@),
{
    match parse_url_path(uri) {
        Some(p) => match url_path_segments(p.as_str()) {
            Some(s) => s,
            None => {
                let v: Vec<String> = Vec::new();
                assert(v.deep_view() =~= Seq::<Seq<char>>::empty());
                v
            },
        },
        None => {
            let v: Vec<String> = Vec::new();
            assert(v.deep_view() =~= Seq::<Seq<char>>::empty());
            v
        },
    }
}

/// A matcher: the method it answers and the patterns of its path segments. Unlike
/// a route, it lets one empty segment stand after its last pattern.
pub struct Matcher<I> {
    method: Method,
    segments: Vec<Segment>,
    _input: core::marker::PhantomData<I>,
}

impl<I> Matcher<I> {
    pub closed spec fn spec_method(&self) -> Seq<char> {
        self.method@
    }

    pub closed spec fn spec_segments(&self) -> Seq<Segment> {
        self.segments@
    }

    /// A matcher for `method` with no segments.
    pub fn new(method: Method) -> (m: Matcher<I>)
        ensures
            m.spec_method() == method@,
            m.spec_segments() == Seq::<Segment>::empty(),
    {
        Matcher { method, segments: Vec::new(), _input: core::marker::PhantomData }
    }

    /// The matcher with one more segment, which must equal `segment`.
    pub fn static_segment(self, segment: &str) -> (m: Matcher<I>)
        ensures
            m.spec_method() == self.spec_method(),
            m.spec_segments().len() == self.spec_segments().len() + 1,
            m.spec_segments().drop_last() == self.spec_segments(),
            m.spec_segments().last() matches Segment::Static(t) && t@ == segment@,
    {
        let Matcher { method, mut segments, .. } = self;
        segments.push(Segment::Static(segment.to_owned()));
        Matcher { method, segments, _input: core::marker::PhantomData }
    }

    /// The matcher with one more segment, which is read as a value of `kind`.
    pub fn dynamic_segment(self, kind: Kind) -> (m: Matcher<I>)
        ensures
            m.spec_method() == self.spec_method(),
            m.spec_segments() == self.spec_segments().push(Segment::Dynamic(kind)),
    {
        let Matcher { method, mut segments, .. } = self;
        segments.push(Segment::Dynamic(kind));
        Matcher { method, segments, _input: core::marker::PhantomData }
    }

    /// What the matcher answers `request` with.
    pub open spec fn outcome(&self, request: Request) -> Result<
        Seq<SegmentValue>,
        MatchError<SegmentError>,
    > {
        matcher_outcome(self.spec_method(), self.spec_segments(), request.spec_method(), request.spec_uri())
    }
}

/// A matcher for `method` with no segments yet.
pub fn path<I>(method: Method) -> (m: Matcher<I>)
    ensures
        m.spec_method() == method@,
        m.spec_segments() == Seq::<Segment>::empty(),
{
    Matcher::new(method)
}

impl<I> Handler for Matcher<I> {
    type Input = Context<I>;
    type Output = Context<(I, Vec<Capture>)>;
    type Error = Context<MatchError<SegmentError>>;

    open spec fn accepts(&self, input: Context<I>) -> bool {
        true
    }

    open spec fn handles(
        &self,
        input: Context<I>,
        result: Result<Context<(I, Vec<Capture>)>, Context<MatchError<SegmentError>>>,
    ) -> bool {
        match result {
            Ok(c) => c.spec_request() == input.spec_request() && c.spec_output().0
                == input.spec_output() && self.outcome(input.spec_request()) == Ok::<
                Seq<SegmentValue>,
                MatchError<SegmentError>,
            >(values(c.spec_output().1@)) && kinds(c.spec_output().1@) == dynamic_kinds(
                self.spec_segments(),
            ),
            Err(c) => c.spec_request() == input.spec_request() && self.outcome(input.spec_request())
                == Err::<Seq<SegmentValue>, MatchError<SegmentError>>(c.spec_output()),
        }
    }

    fn handle(&mut self, input: Context<I>) -> (result: Result<
        Context<(I, Vec<Capture>)>,
        Context<MatchError<SegmentError>>,
    >) {
        let segments = segments_of_url(input.request().uri());
        if !input.request().method().same(&self.method) {
            return Err(input.with_output(MatchError::IncorrectMethod));
        }
        match walk_segments(&self.segments, &segments) {
            Err(None) => Err(input.with_output(MatchError::Static)),
            Err(Some((i, reason))) => Err(
                input.with_output(MatchError::Dynamic(SegmentError { position: i, reason })),
            ),
            Ok(captures) => {
                let n = self.segments.len();
                if segments.len() > n && segments[n].unicode_len() != 0 {
                    Err(input.with_output(MatchError::Static))
                } else {
                    proof {
                        if segments.len() > n {
                            assert(segments.deep_view()[n as int] =~= Seq::<char>::empty());
                        }
                    }
                    let Context { request, output } = input;
                    Ok(Context { request, output: (output, captures) })
                }
            },
        }
    }
}


/// A matcher matches a request with its own method whose URL path is `/` followed
/// by segments that suit its patterns (none holding a `/`), with or without one
/// trailing `/`: it reads the dynamic segments, in order.
pub proof fn lemma_matcher_matches_fitting_path(
    method: Seq<char>,
    patterns: Seq<Segment>,
    parts: Seq<Seq<char>>,
    uri: Seq<char>,
)
    requires
        segments_fit(patterns, parts),
        forall|i: int| 0 <= i < parts.len() ==> free_of(#[trigger] parts[i], '/'),
        url_path(uri) == Some(seq!['/'] + join_on(parts, '/')) || (parts.len() > 0 && url_path(
            uri,
        ) == Some(seq!['/'] + join_on(parts, '/') + seq!['/'])),
    ensures
        matcher_outcome(method, patterns, method, uri) == Ok::<
            Seq<SegmentValue>,
            MatchError<SegmentError>,
        >(read_segments(patterns, parts, 0)),
{
    lemma_walk_fitting(patterns, parts, 0);
    let p = url_path(uri)->Some_0;
    if parts.len() == 0 {
        assert(p.drop_first() =~= Seq::<char>::empty());
        assert(split_on(Seq::<char>::empty(), '/') =~= seq![Seq::<char>::empty()]);
        let segments = request_url_segments(uri);
        assert(segments == seq![Seq::<char>::empty()]);
        assert(walk(patterns, segments, 0) == Walk::Done(Seq::<SegmentValue>::empty()));
        assert(read_segments(patterns, parts, 0) == Seq::<SegmentValue>::empty());
    } else if p == seq!['/'] + join_on(parts, '/') {
        assert(p.drop_first() =~= join_on(parts, '/'));
        lemma_split_join(parts, '/');
        assert(request_url_segments(uri) == parts);
    } else {
        let longer = parts.push(Seq::empty());
        assert forall|i: int| 0 <= i < longer.len() implies free_of(#[trigger] longer[i], '/') by {
            if i < parts.len() {
                assert(longer[i] == parts[i]);
            }
        }
        lemma_split_join(longer, '/');
        assert(longer.drop_last() =~= parts);
        assert(longer.last() =~= Seq::<char>::empty());
        assert(longer.len() > 1);
        assert(join_on(longer, '/') =~= join_on(parts, '/').push('/') + Seq::<char>::empty());
        assert(p.drop_first() =~= join_on(longer, '/'));
        let segments = request_url_segments(uri);
        assert(segments == longer);
        assert forall|i: int| 0 <= i < patterns.len() implies walk(patterns, longer, i) == walk(
            patterns,
            parts,
            i,
        ) by {
            lemma_walk_prefix(patterns, parts, longer, i);
        }
        assert(longer[patterns.len() as int] =~= Seq::<char>::empty());
    }
}

/// Walking depends only on the segments under the patterns.
proof fn lemma_walk_prefix(
    patterns: Seq<Segment>,
    short: Seq<Seq<char>>,
    long: Seq<Seq<char>>,
    i: int,
)
    requires
        patterns.len() <= short.len() <= long.len(),
        forall|k: int| 0 <= k < short.len() ==> short[k] == long[k],
        0 <= i,
    ensures
        walk(patterns, long, i) == walk(patterns, short, i),
    decreases patterns.len() - i,
{
    if i < patterns.len() {
        lemma_walk_prefix(patterns, short, long, i + 1);
    }
}

} // verus!
