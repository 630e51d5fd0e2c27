//! Path segments: splitting a path, reading a segment as a value, and walking
//! a list of segment patterns along the segments of a path.

use vstd::prelude::*;
use crate::text::{push_char, str_eq};

verus! {

/// `str::split` on one separator: the pieces between the separators, always at
/// least one.
pub open spec fn split_on(s: Seq<char>, sep: char) -> Seq<Seq<char>>
    decreases s.len(),
{
    if s.len() == 0 {
        seq![Seq::<char>::empty()]
    } else {
        let p = split_on(s.drop_last(), sep);
        if s.last() == sep {
            p.push(Seq::<char>::empty())
        } else {
            p.update(p.len() - 1, p.last().push(s.last()))
        }
    }
}

pub proof fn lemma_split_on_nonempty(s: Seq<char>, sep: char)
    ensures
        split_on(s, sep).len() >= 1,
    decreases s.len(),
{
    if s.len() > 0 {
        lemma_split_on_nonempty(s.drop_last(), sep);
    }
}

/// The segments of an `http` path: the pieces after the leading `/`, without the
/// empty piece that a trailing `/` leaves. A path without a leading `/` has none.
pub open spec fn http_segments(path: Seq<char>) -> Seq<Seq<char>> {
    let raw = if path.len() > 0 && path[0] == '/' {
        split_on(path.drop_first(), '/')
    } else {
        Seq::empty()
    };
    if raw.len() > 0 && raw.last() == Seq::<char>::empty() {
        raw.drop_last()
    } else {
        raw
    }
}

/// The segments of a URL path (`Url::path_segments`): the pieces after the leading
/// `/`, or `None` when the path has no leading `/`.
pub open spec fn url_segments(path: Seq<char>) -> Option<Seq<Seq<char>>> {
    if path.len() > 0 && path[0] == '/' {
        Some(split_on(path.drop_first(), '/'))
    } else {
        None
    }
}

/// Splits the characters of `s` from `start` on at `sep`.
pub fn split_from(s: &str, start: usize, sep: char) -> (parts: Vec<String>)
    requires
        start <= s@.len(),
    ensures
        parts.deep_view() == split_on(s@.skip(start as int), sep),
{
    let n = s.unicode_len();
    let mut parts: Vec<String> = Vec::new();
    let mut current = String::new();
    let mut i = start;
    assert(s@.subrange(start as int, start as int) =~= Seq::<char>::empty());
    assert(parts.deep_view().push(current@) =~= split_on(Seq::<char>::empty(), sep));
    while i < n
        invariant
            n == s@.len(),
            start <= i <= n,
            parts.deep_view().push(current@) == split_on(s@.subrange(start as int, i as int), sep),
        decreases n - i,
    {
        let c = s.get_char(i);
        let ghost prefix = s@.subrange(start as int, i as int);
        let ghost before = parts.deep_view();
        let ghost cur = current@;
        assert(s@.subrange(start as int, i + 1).drop_last() =~= prefix);
        assert(s@.subrange(start as int, i + 1).last() == c);
        if c == sep {
            parts.push(current);
            current = String::new();
            assert(parts.deep_view() =~= before.push(cur));
            assert(parts.deep_view().push(current@) =~= split_on(prefix, sep).push(Seq::empty()));
        } else {
            push_char(&mut current, c);
            assert(parts.deep_view() =~= before);
            assert(parts.deep_view().push(current@) =~= before.push(cur).update(
                before.len() as int,
                cur.push(c),
            ));
        }
        i = i + 1;
    }
    let ghost before = parts.deep_view();
    let ghost cur = current@;
    parts.push(current);
    assert(parts.deep_view() =~= before.push(cur));
    assert(s@.subrange(start as int, n as int) =~= s@.skip(start as int));
    parts
}

/// The segments of an `http` path, as `http_segments` defines them.
pub fn http_path_segments(path: &str) -> (segments: Vec<String>)
    ensures
        segments.deep_view() == http_segments(path@),
{
    let n = path.unicode_len();
    if n == 0 || path.get_char(0) != '/' {
        return Vec::new();
    }
    let mut parts = split_from(path, 1, '/');
    assert(path@.skip(1) =~= path@.drop_first());
    let k = parts.len();
    if k > 0 && parts[k - 1].unicode_len() == 0 {
        let ghost before = parts.deep_view();
        assert(before.last() =~= Seq::<char>::empty());
        parts.pop();
        assert(parts.deep_view() =~= before.drop_last());
    }
    parts
}

/// The segments of a URL path, as `url_segments` defines them.
pub fn url_path_segments(path: &str) -> (segments: Option<Vec<String>>)
    ensures
        match segments {
            Some(v) => url_segments(path@) == Some(v.deep_view()),
            None => url_segments(path@) is None,
        },
{
    let n = path.unicode_len();
    if n == 0 || path.get_char(0) != '/' {
        return None;
    }
    let parts = split_from(path, 1, '/');
    assert(path@.skip(1) =~= path@.drop_first());
    Some(parts)
}


/// Whether `c` is an ASCII decimal digit.
pub open spec fn is_digit(c: char) -> bool {
    '0' <= c <= '9'
}

/// Whether every character of `s` is a decimal digit.
pub open spec fn all_digits(s: Seq<char>) -> bool {
    forall|i: int| 0 <= i < s.len() ==> is_digit(#[trigger] s[i])
}

/// The number that the decimal digits `s` write.
pub open spec fn digits_value(s: Seq<char>) -> int
    decreases s.len(),
{
    if s.len() == 0 {
        0
    } else {
        digits_value(s.drop_last()) * 10 + (s.last() as int - '0' as int)
    }
}

/// The number an unsigned integer segment writes: an optional `+` and one or
/// more decimal digits (the grammar of `FromStr` for the unsigned integers).
pub open spec fn unsigned_value(s: Seq<char>) -> Option<int> {
    let d = if s.len() > 0 && s[0] == '+' {
        s.drop_first()
    } else {
        s
    };
    if d.len() > 0 && all_digits(d) {
        Some(digits_value(d))
    } else {
        None
    }
}

/// The number a signed integer segment writes: an optional `+` or `-` and one or
/// more decimal digits (the grammar of `FromStr` for the signed integers).
pub open spec fn signed_value(s: Seq<char>) -> Option<int> {
    if s.len() > 0 && s[0] == '-' {
        let d = s.drop_first();
        if d.len() > 0 && all_digits(d) {
            Some(-digits_value(d))
        } else {
            None
        }
    } else {
        unsigned_value(s)
    }
}

/// What a dynamic segment is read as.
#[derive(Clone, Copy, Debug, PartialEq, Eq, Structural)]
pub enum Kind {
    U32,
    U64,
    I32,
    I64,
    Text,
}

/// The value a segment was read as.
pub enum SegmentValue {
    Int(int),
    Text(Seq<char>),
}

/// The value of a segment read as `kind`, or `None` when the segment does not
/// write such a value (not a number, or out of range).
pub open spec fn spec_parse_segment(kind: Kind, s: Seq<char>) -> Option<SegmentValue> {
    match kind {
        Kind::Text => Some(SegmentValue::Text(s)),
        Kind::U32 => match unsigned_value(s) {
            Some(v) => if v <= u32::MAX {
                Some(SegmentValue::Int(v))
            } else {
                None
            },
            None => None,
        },
        Kind::U64 => match unsigned_value(s) {
            Some(v) => if v <= u64::MAX {
                Some(SegmentValue::Int(v))
            } else {
                None
            },
            None => None,
        },
        Kind::I32 => match signed_value(s) {
            Some(v) => if i32::MIN <= v <= i32::MAX {
                Some(SegmentValue::Int(v))
            } else {
                None
            },
            None => None,
        },
        Kind::I64 => match signed_value(s) {
            Some(v) => if i64::MIN <= v <= i64::MAX {
                Some(SegmentValue::Int(v))
            } else {
                None
            },
            None => None,
        },
    }
}

/// A segment read as a value.
#[derive(Debug, PartialEq, Eq)]
pub enum Capture {
    U32(u32),
    U64(u64),
    I32(i32),
    I64(i64),
    Text(String),
}

impl Capture {
    pub open spec fn value(self) -> SegmentValue {
        match self {
            Capture::U32(v) => SegmentValue::Int(v as int),
            Capture::U64(v) => SegmentValue::Int(v as int),
            Capture::I32(v) => SegmentValue::Int(v as int),
            Capture::I64(v) => SegmentValue::Int(v as int),
            Capture::Text(s) => SegmentValue::Text(s@),
        }
    }

    pub open spec fn kind(self) -> Kind {
        match self {
            Capture::U32(_) => Kind::U32,
            Capture::U64(_) => Kind::U64,
            Capture::I32(_) => Kind::I32,
            Capture::I64(_) => Kind::I64,
            Capture::Text(_) => Kind::Text,
        }
    }
}

/// The values of a list of captures.
pub open spec fn values(c: Seq<Capture>) -> Seq<SegmentValue> {
    Seq::new(c.len(), |k: int| c[k].value())
}

proof fn lemma_digits_value_grows(s: Seq<char>, k: int)
    requires
        all_digits(s),
        0 <= k <= s.len(),
    ensures
        digits_value(s.subrange(0, k)) <= digits_value(s),
        0 <= digits_value(s.subrange(0, k)),
    decreases s.len() - k,
{
    if k < s.len() {
        lemma_digits_value_grows(s, k + 1);
        assert(s.subrange(0, k + 1).drop_last() =~= s.subrange(0, k));
        assert(is_digit(s[k]));
    } else {
        assert(s.subrange(0, k) =~= s);
        lemma_digits_nonneg(s);
    }
}

proof fn lemma_digits_nonneg(s: Seq<char>)
    requires
        all_digits(s),
    ensures
        0 <= digits_value(s),
    decreases s.len(),
{
    if s.len() > 0 {
        assert(is_digit(s[s.len() - 1]));
        lemma_digits_nonneg(s.drop_last());
    }
}

/// Reads the characters of `s` from `start` on as decimal digits: their value when
/// there is at least one, all are digits and the value is at most `bound`.
fn parse_digits(s: &str, start: usize, bound: u64) -> (r: Option<u64>)
    requires
        start <= s@.len(),
    ensures
        match r {
            Some(v) => s@.len() > start && all_digits(s@.skip(start as int)) && v == digits_value(
                s@.skip(start as int),
            ) && v <= bound,
            None => !(s@.len() > start && all_digits(s@.skip(start as int)) && digits_value(
                s@.skip(start as int),
            ) <= bound),
        },
{
    let n = s.unicode_len();
    if start >= n {
        return None;
    }
    let ghost d = s@.skip(start as int);
    let mut v: u64 = 0;
    let mut i = start;
    while i < n
        invariant
            n == s@.len(),
            start <= i <= n,
            d == s@.skip(start as int),
            forall|k: int| 0 <= k < i - start ==> is_digit(#[trigger] d[k]),
            v == digits_value(d.subrange(0, i - start)),
            v <= bound,
        decreases n - i,
    {
        let c = s.get_char(i);
        assert(d[i - start] == c);
        if c < '0' || c > '9' {
            assert(!all_digits(d)) by {
                assert(!is_digit(d[i - start]));
            }
            return None;
        }
        let digit: u64 = (c as u32 - '0' as u32) as u64;
        assert(d.subrange(0, i + 1 - start).drop_last() =~= d.subrange(0, i - start));
        let w: u128 = (v as u128) * 10 + (digit as u128);
        if w > bound as u128 {
            proof {
                let next = d.subrange(0, i + 1 - start);
                assert(digits_value(next) == v * 10 + digit);
                assert(digits_value(next) > bound);
                if all_digits(d) {
                    lemma_digits_value_grows(d, i + 1 - start);
                }
            }
            return None;
        }
        v = w as u64;
        i = i + 1;
    }
    assert(d.subrange(0, n - start) =~= d);
    Some(v)
}

/// Reads `s` as a value of `kind`, as `spec_parse_segment` says.
pub fn parse_segment(kind: Kind, s: &str) -> (r: Option<Capture>)
    ensures
        match r {
            Some(c) => spec_parse_segment(kind, s@) == Some(c.value()) && c.kind() == kind,
            None => spec_parse_segment(kind, s@) is None,
        },
{
    match kind {
        Kind::Text => Some(Capture::Text(s.to_owned())),
        Kind::U32 | Kind::U64 => {
            let n = s.unicode_len();
            let start: usize = if n > 0 && s.get_char(0) == '+' {
                1
            } else {
                0
            };
            assert(start == 1 ==> s@.skip(1) =~= s@.drop_first());
            assert(start == 0 ==> s@.skip(0) =~= s@);
            let bound: u64 = if kind == Kind::U32 {
                0xffff_ffffu64
            } else {
                0xffff_ffff_ffff_ffffu64
            };
            match parse_digits(s, start, bound) {
                Some(v) => if kind == Kind::U32 {
                    Some(Capture::U32(v as u32))
                } else {
                    Some(Capture::U64(v))
                },
                None => None,
            }
        },
        Kind::I32 | Kind::I64 => {
            let n = s.unicode_len();
            let negative = n > 0 && s.get_char(0) == '-';
            let start: usize = if n > 0 && (s.get_char(0) == '-' || s.get_char(0) == '+') {
                1
            } else {
                0
            };
            assert(start == 1 ==> s@.skip(1) =~= s@.drop_first());
            assert(start == 0 ==> s@.skip(0) =~= s@);
            let bound: u64 = if kind == Kind::I32 {
                if negative {
                    0x8000_0000u64
                } else {
                    0x7fff_ffffu64
                }
            } else {
                if negative {
                    0x8000_0000_0000_0000u64
                } else {
                    0x7fff_ffff_ffff_ffffu64
                }
            };
            match parse_digits(s, start, bound) {
                Some(v) => {
                    if kind == Kind::I32 {
                        let w: i64 = if negative {
                            0i64 - (v as i64)
                        } else {
                            v as i64
                        };
                        Some(Capture::I32(w as i32))
                    } else {
                        if negative {
                            if v == 0x8000_0000_0000_0000u64 {
                                Some(Capture::I64(i64::MIN))
                            } else {
                                Some(Capture::I64(0i64 - (v as i64)))
                            }
                        } else {
                            Some(Capture::I64(v as i64))
                        }
                    }
                },
                None => None,
            }
        },
    }
}


/// Why a segment does not read as a number of its kind, as `FromStr` for the
/// integers tells it (`IntErrorKind`).
#[derive(Clone, Copy, Debug, PartialEq, Eq, Structural)]
pub enum ParseFailure {
    /// The segment is empty.
    Empty,
    /// A character is no digit where a digit must stand (a sign alone counts).
    InvalidDigit,
    /// The number is too large for its kind.
    PosOverflow,
    /// The number is too small for its kind.
    NegOverflow,
}

/// Why `s` does not read as a value of `kind`, when it does not.
pub open spec fn failure(kind: Kind, s: Seq<char>) -> ParseFailure {
    if s.len() == 0 {
        ParseFailure::Empty
    } else {
        let negative = (kind == Kind::I32 || kind == Kind::I64) && s[0] == '-';
        let d = if s[0] == '+' || negative {
            s.drop_first()
        } else {
            s
        };
        if d.len() == 0 || !all_digits(d) {
            ParseFailure::InvalidDigit
        } else if negative {
            ParseFailure::NegOverflow
        } else {
            ParseFailure::PosOverflow
        }
    }
}

/// Why `s` does not read as a value of `kind`, as `failure` says.
pub fn parse_failure(kind: Kind, s: &str) -> (r: ParseFailure)
    ensures
        r == failure(kind, s@),
{
    let n = s.unicode_len();
    if n == 0 {
        return ParseFailure::Empty;
    }
    let c0 = s.get_char(0);
    let negative = (kind == Kind::I32 || kind == Kind::I64) && c0 == '-';
    let start: usize = if c0 == '+' || negative {
        1
    } else {
        0
    };
    assert(start == 1 ==> s@.skip(1) =~= s@.drop_first());
    assert(start == 0 ==> s@.skip(0) =~= s@);
    let ghost d = s@.skip(start as int);
    if start >= n {
        return ParseFailure::InvalidDigit;
    }
    let mut i = start;
    while i < n
        invariant
            n == s@.len(),
            start <= i <= n,
            d == s@.skip(start as int),
            forall|k: int| 0 <= k < i - start ==> is_digit(#[trigger] d[k]),
            n > 0,
            c0 == s@[0],
            negative == ((kind == Kind::I32 || kind == Kind::I64) && s@[0] == '-'),
            start == (if s@[0] == '+' || negative {
                1usize
            } else {
                0usize
            }),
            d == (if s@[0] == '+' || negative {
                s@.drop_first()
            } else {
                s@
            }),
        decreases n - i,
    {
        let c = s.get_char(i);
        assert(d[i - start] == c);
        if c < '0' || c > '9' {
            assert(!all_digits(d)) by {
                assert(!is_digit(d[i - start]));
            }
            return ParseFailure::InvalidDigit;
        }
        i = i + 1;
    }
    assert(all_digits(d));
    if negative {
        ParseFailure::NegOverflow
    } else {
        ParseFailure::PosOverflow
    }
}

/// Why the segment at position `i` does not read as the kind of its pattern.
pub open spec fn invalid_reason(patterns: Seq<Segment>, segments: Seq<Seq<char>>, i: int) -> ParseFailure {
    match patterns[i] {
        Segment::Dynamic(kind) => failure(kind, segments[i]),
        Segment::Static(_) => ParseFailure::Empty,
    }
}

/// One segment of a route: a fixed text, or a value to read.
pub enum Segment {
    Static(String),
    Dynamic(Kind),
}

/// How a walk of segment patterns along path segments ends.
pub enum Walk {
    /// Every pattern met its segment; the values read from the dynamic ones.
    Done(Seq<SegmentValue>),
    /// A segment is missing, or differs from the fixed text of its pattern.
    Missing,
    /// The segment at this position does not write a value of its kind.
    Invalid(nat),
}

/// Walks the patterns from position `i` on, pattern `k` against segment `k`.
pub open spec fn walk(patterns: Seq<Segment>, segments: Seq<Seq<char>>, i: int) -> Walk
    decreases patterns.len() - i,
{
    if i < 0 || i >= patterns.len() {
        Walk::Done(Seq::empty())
    } else {
        match patterns[i] {
            Segment::Static(text) => if i < segments.len() && segments[i] == text@ {
                walk(patterns, segments, i + 1)
            } else {
                Walk::Missing
            },
            Segment::Dynamic(kind) => if i >= segments.len() {
                Walk::Missing
            } else {
                match spec_parse_segment(kind, segments[i]) {
                    None => Walk::Invalid(i as nat),
                    Some(v) => prepend(seq![v], walk(patterns, segments, i + 1)),
                }
            },
        }
    }
}

/// The kinds of the dynamic patterns among `patterns`, in order.
pub open spec fn dynamic_kinds(patterns: Seq<Segment>) -> Seq<Kind>
    decreases patterns.len(),
{
    if patterns.len() == 0 {
        Seq::empty()
    } else {
        dynamic_kinds(patterns.drop_last()) + match patterns.last() {
            Segment::Dynamic(k) => seq![k],
            Segment::Static(_) => Seq::empty(),
        }
    }
}

/// The kinds of a list of captures.
pub open spec fn kinds(c: Seq<Capture>) -> Seq<Kind> {
    Seq::new(c.len(), |k: int| c[k].kind())
}

/// `w` with the values `c` in front of its values, when it is done.
pub open spec fn prepend(c: Seq<SegmentValue>, w: Walk) -> Walk {
    match w {
        Walk::Done(v) => Walk::Done(c + v),
        other => other,
    }
}

/// Walks `patterns` along `segments` as `walk` says: the captured values, or
/// `Err(None)` for a missing or different segment, or `Err(Some((i, reason)))` for
/// the segment `i` that does not read as its kind, and why.
pub fn walk_segments(patterns: &Vec<Segment>, segments: &Vec<String>) -> (r: Result<
    Vec<Capture>,
    Option<(usize, ParseFailure)>,
>)
    ensures
        match r {
            Ok(c) => walk(patterns@, segments.deep_view(), 0) == Walk::Done(values(c@)) && kinds(c@)
                == dynamic_kinds(patterns@),
            Err(None) => walk(patterns@, segments.deep_view(), 0) == Walk::Missing,
            Err(Some((i, reason))) => walk(patterns@, segments.deep_view(), 0) == Walk::Invalid(
                i as nat,
            ) && reason == invalid_reason(patterns@, segments.deep_view(), i as int),
        },
{
    let ghost p = patterns@;
    let ghost segs = segments.deep_view();
    let mut captures: Vec<Capture> = Vec::new();
    let mut i: usize = 0;
    proof {
        assert(values(captures@) =~= Seq::<SegmentValue>::empty());
        match walk(p, segs, 0) {
            Walk::Done(v) => {
                assert(Seq::<SegmentValue>::empty() + v =~= v);
            },
            _ => {},
        }
    }
    while i < patterns.len()
        invariant
            p == patterns@,
            segs == segments.deep_view(),
            i <= patterns.len(),
            walk(p, segs, 0) == prepend(values(captures@), walk(p, segs, i as int)),
            kinds(captures@) == dynamic_kinds(p.take(i as int)),
        decreases patterns.len() - i,
    {
        assert(p.take(i + 1).drop_last() =~= p.take(i as int));
        assert(p.take(i + 1).last() == p[i as int]);
        match &patterns[i] {
            Segment::Static(text) => {
                if i >= segments.len() || !str_eq(segments[i].as_str(), text.as_str()) {
                    return Err(None);
                }
            },
            Segment::Dynamic(kind) => {
                if i >= segments.len() {
                    return Err(None);
                }
                match parse_segment(*kind, segments[i].as_str()) {
                    None => {
                        let reason = parse_failure(*kind, segments[i].as_str());
                        return Err(Some((i, reason)));
                    },
                    Some(c) => {
                        let ghost before = values(captures@);
                        let ghost rest = walk(p, segs, i + 1);
                        let ghost before_kinds = kinds(captures@);
                        captures.push(c);
                        assert(values(captures@) =~= before.push(c.value()));
                        assert(kinds(captures@) =~= before_kinds + seq![c.kind()]);
                        proof {
                            match rest {
                                Walk::Done(v) => {
                                    assert(before + (seq![c.value()] + v) =~= before.push(
                                        c.value(),
                                    ) + v);
                                },
                                _ => {},
                            }
                        }
                    },
                }
            },
        }
        i = i + 1;
    }
    assert(values(captures@) + Seq::<SegmentValue>::empty() =~= values(captures@));
    assert(p.take(patterns@.len() as int) =~= p);
    Ok(captures)
}


/// The pieces `parts` with `sep` between each two of them.
pub open spec fn join_on(parts: Seq<Seq<char>>, sep: char) -> Seq<char>
    decreases parts.len(),
{
    if parts.len() == 0 {
        Seq::empty()
    } else if parts.len() == 1 {
        parts[0]
    } else {
        join_on(parts.drop_last(), sep).push(sep) + parts.last()
    }
}

/// Whether `sep` occurs nowhere in `s`.
pub open spec fn free_of(s: Seq<char>, sep: char) -> bool {
    forall|i: int| 0 <= i < s.len() ==> s[i] != sep
}

/// Splitting `z + y`, where `y` holds no separator, gives the pieces of `z` with `y`
/// added to the last one.
proof fn lemma_split_append_free(z: Seq<char>, y: Seq<char>, sep: char)
    requires
        free_of(y, sep),
    ensures
        split_on(z + y, sep) == split_on(z, sep).update(
            split_on(z, sep).len() - 1,
            split_on(z, sep).last() + y,
        ),
    decreases y.len(),
{
    lemma_split_on_nonempty(z, sep);
    if y.len() == 0 {
        assert(z + y =~= z);
        assert(split_on(z, sep).last() + y =~= split_on(z, sep).last());
        assert(split_on(z, sep).update(split_on(z, sep).len() - 1, split_on(z, sep).last())
            =~= split_on(z, sep));
    } else {
        let y0 = y.drop_last();
        lemma_split_append_free(z, y0, sep);
        assert((z + y).drop_last() =~= z + y0);
        assert((z + y).last() == y.last());
        let p = split_on(z, sep);
        assert(split_on(z + y0, sep).last() == p.last() + y0);
        assert((p.last() + y0).push(y.last()) =~= p.last() + y);
        assert(split_on(z + y0, sep).update(p.len() - 1, (p.last() + y0).push(y.last()))
            =~= p.update(p.len() - 1, p.last() + y));
    }
}

/// Splitting what `join_on` joined gives the pieces back, when no piece holds the
/// separator.
pub proof fn lemma_split_join(parts: Seq<Seq<char>>, sep: char)
    requires
        parts.len() >= 1,
        forall|i: int| 0 <= i < parts.len() ==> free_of(#[trigger] parts[i], sep),
    ensures
        split_on(join_on(parts, sep), sep) == parts,
    decreases parts.len(),
{
    if parts.len() == 1 {
        lemma_split_append_free(Seq::empty(), parts[0], sep);
        assert(Seq::<char>::empty() + parts[0] =~= parts[0]);
        assert(seq![Seq::<char>::empty()].update(0, Seq::<char>::empty() + parts[0]) =~= parts);
    } else {
        let front = parts.drop_last();
        assert forall|i: int| 0 <= i < front.len() implies free_of(#[trigger] front[i], sep) by {
            assert(front[i] == parts[i]);
        }
        lemma_split_join(front, sep);
        let x = join_on(front, sep).push(sep);
        assert(split_on(x, sep) == split_on(join_on(front, sep), sep).push(Seq::empty())) by {
            assert(x.drop_last() =~= join_on(front, sep));
        }
        assert(free_of(parts.last(), sep));
        lemma_split_append_free(x, parts.last(), sep);
        assert(Seq::<char>::empty() + parts.last() =~= parts.last());
        assert(front.push(Seq::empty()).update(front.len() as int, parts.last()) =~= parts);
    }
}

/// The values read from the dynamic ones among `patterns`, segment `k` for pattern
/// `k`, from position `i` on.
pub open spec fn read_segments(patterns: Seq<Segment>, segments: Seq<Seq<char>>, i: int) -> Seq<
    SegmentValue,
>
    decreases patterns.len() - i,
{
    if i < 0 || i >= patterns.len() {
        Seq::empty()
    } else {
        match patterns[i] {
            Segment::Static(_) => read_segments(patterns, segments, i + 1),
            Segment::Dynamic(kind) => seq![spec_parse_segment(kind, segments[i])->Some_0]
                + read_segments(patterns, segments, i + 1),
        }
    }
}

/// Whether each segment suits its pattern: equal to a fixed text, or readable as
/// the kind of a dynamic pattern.
pub open spec fn segments_fit(patterns: Seq<Segment>, segments: Seq<Seq<char>>) -> bool {
    &&& patterns.len() == segments.len()
    &&& forall|i: int|
        0 <= i < patterns.len() ==> match #[trigger] patterns[i] {
            Segment::Static(t) => t@ == segments[i],
            Segment::Dynamic(kind) => spec_parse_segment(kind, segments[i]) is Some,
        }
}

/// Patterns walked along segments that suit them read every dynamic segment.
pub proof fn lemma_walk_fitting(patterns: Seq<Segment>, segments: Seq<Seq<char>>, i: int)
    requires
        segments_fit(patterns, segments),
        0 <= i <= patterns.len(),
    ensures
        walk(patterns, segments, i) == Walk::Done(read_segments(patterns, segments, i)),
    decreases patterns.len() - i,
{
    if i < patterns.len() {
        lemma_walk_fitting(patterns, segments, i + 1);
        match patterns[i] {
            Segment::Static(_) => {},
            Segment::Dynamic(kind) => {},
        }
    } else {
        assert(walk(patterns, segments, i) == Walk::Done(Seq::<SegmentValue>::empty()));
    }
}

/// The `http` segments of `/` followed by the joined pieces are the pieces, when
/// none holds a `/` and the last one is not empty.
pub proof fn lemma_http_segments_of_joined(parts: Seq<Seq<char>>)
    requires
        forall|i: int| 0 <= i < parts.len() ==> free_of(#[trigger] parts[i], '/'),
        parts.len() > 0 ==> parts.last().len() > 0,
    ensures
        http_segments(seq!['/'] + join_on(parts, '/')) == parts,
        parts.len() > 0 ==> http_segments(seq!['/'] + join_on(parts, '/') + seq!['/']) == parts,
{
    let path = seq!['/'] + join_on(parts, '/');
    assert(path.drop_first() =~= join_on(parts, '/'));
    if parts.len() == 0 {
        assert(split_on(Seq::<char>::empty(), '/') =~= seq![Seq::<char>::empty()]);
        assert(seq![Seq::<char>::empty()].drop_last() =~= parts);
    } else {
        lemma_split_join(parts, '/');
        let longer = parts.push(Seq::empty());
        assert forall|i: int| 0 <= i < longer.len() implies free_of(#[trigger] longer[i], '/') by {
            if i < parts.len() {
                assert(longer[i] == parts[i]);
            }
        }
        lemma_split_join(longer, '/');
        assert(longer.drop_last() =~= parts);
        assert(join_on(longer, '/') =~= join_on(parts, '/').push('/') + Seq::<char>::empty());
        let path2 = seq!['/'] + join_on(parts, '/') + seq!['/'];
        assert(path2.drop_first() =~= join_on(longer, '/'));
        assert(longer.last() =~= Seq::<char>::empty());
        assert(longer.drop_last() =~= parts);
    }
}

} // verus!
