//! Format strings: text with `{}` placeholders.

use vstd::prelude::*;

verus! {

/// A piece of a format string.
#[derive(Debug)]
pub enum FormatSegment {
    Literal(String),
    Placeholder,
}

/// Model of [`FormatSegment`].
pub enum Segment {
    Literal(Seq<char>),
    Placeholder,
}

impl View for FormatSegment {
    type V = Segment;

    open spec fn view(&self) -> Segment {
        match self {
            FormatSegment::Literal(s) => Segment::Literal(s@),
            FormatSegment::Placeholder => Segment::Placeholder,
        }
    }
}

pub open spec fn segment_views(segs: Seq<FormatSegment>) -> Seq<Segment> {
    segs.map_values(|s: FormatSegment| s@)
}

/// Whether a placeholder stands at position `i`.
pub open spec fn placeholder_at(s: Seq<char>, i: int) -> bool {
    0 <= i && i + 1 < s.len() && s[i] == '{' && s[i + 1] == '}'
}

/// The literal from `start` up to `end`, left out when it is empty.
pub open spec fn literal(s: Seq<char>, start: int, end: int) -> Seq<Segment> {
    if start < end {
        seq![Segment::Literal(s.subrange(start, end))]
    } else {
        Seq::empty()
    }
}

/// Segments of the text from `start` on, given that no placeholder begins
/// between `start` and `i`.
pub open spec fn segments_from(s: Seq<char>, start: int, i: int) -> Seq<Segment>
    decreases s.len() - i,
{
    if i >= s.len() {
        literal(s, start, s.len() as int)
    } else if placeholder_at(s, i) {
        literal(s, start, i) + seq![Segment::Placeholder] + segments_from(s, i + 2, i + 2)
    } else {
        segments_from(s, start, i + 1)
    }
}

/// The segments of a format string, found from left to right.
pub open spec fn format_segments(s: Seq<char>) -> Seq<Segment> {
    segments_from(s, 0, 0)
}

/// Writes segments back as text.
pub open spec fn unparse(segs: Seq<Segment>) -> Seq<char>
    decreases segs.len(),
{
    if segs.len() == 0 {
        Seq::empty()
    } else {
        (match segs[0] {
            Segment::Literal(t) => t,
            Segment::Placeholder => "{}"@,
        }) + unparse(segs.drop_first())
    }
}

proof fn unparse_concat(a: Seq<Segment>, b: Seq<Segment>)
    ensures
        unparse(a + b) == unparse(a) + unparse(b),
    decreases a.len(),
{
    if a.len() == 0 {
        assert(a + b =~= b);
        assert(unparse(a) + unparse(b) =~= unparse(b));
    } else {
        unparse_concat(a.drop_first(), b);
        assert((a + b).drop_first() =~= a.drop_first() + b);
        assert((a + b)[0] == a[0]);
        assert(unparse(a + b) =~= unparse(a) + unparse(b));
    }
}

proof fn unparse_literal(s: Seq<char>, start: int, end: int)
    requires
        0 <= start <= end <= s.len(),
    ensures
        unparse(literal(s, start, end)) == s.subrange(start, end),
{
    let l = literal(s, start, end);
    if start < end {
        assert(l.drop_first() =~= Seq::<Segment>::empty());
        assert(unparse(l.drop_first()) =~= Seq::<char>::empty());
        assert(unparse(l) =~= s.subrange(start, end));
    } else {
        assert(s.subrange(start, end) =~= Seq::<char>::empty());
    }
}

proof fn unparse_segments_from(s: Seq<char>, start: int, i: int)
    requires
        0 <= start <= i <= s.len(),
    ensures
        unparse(segments_from(s, start, i)) == s.subrange(start, s.len() as int),
    decreases s.len() - i,
{
    if i >= s.len() {
        unparse_literal(s, start, s.len() as int);
    } else if placeholder_at(s, i) {
        let mid = seq![Segment::Placeholder];
        let tail = segments_from(s, i + 2, i + 2);
        unparse_literal(s, start, i);
        unparse_segments_from(s, i + 2, i + 2);
        unparse_concat(literal(s, start, i) + mid, tail);
        unparse_concat(literal(s, start, i), mid);
        reveal_strlit("{}");
        assert(mid.drop_first() =~= Seq::<Segment>::empty());
        assert(unparse(mid.drop_first()) =~= Seq::<char>::empty());
        assert(unparse(mid) =~= "{}"@);
        assert(s.subrange(start, i) + "{}"@ + s.subrange(i + 2, s.len() as int) =~= s.subrange(
            start,
            s.len() as int,
        ));
    } else {
        unparse_segments_from(s, start, i + 1);
    }
}

/// Splitting a format string loses nothing: writing its segments back, with
/// `{}` for each placeholder, gives the string.
pub proof fn format_segments_round_trip(s: Seq<char>)
    ensures
        unparse(format_segments(s)) == s,
{
    unparse_segments_from(s, 0, 0);
    assert(s.subrange(0, s.len() as int) =~= s);
}

proof fn segments_from_nonempty(s: Seq<char>, start: int, i: int)
    requires
        0 <= start <= i <= s.len(),
    ensures
        forall|k: int|
            0 <= k < segments_from(s, start, i).len() ==> (#[trigger] segments_from(
                s,
                start,
                i,
            )[k] matches Segment::Literal(t) ==> t.len() > 0),
    decreases s.len() - i,
{
    if i >= s.len() {
    } else if placeholder_at(s, i) {
        segments_from_nonempty(s, i + 2, i + 2);
    } else {
        segments_from_nonempty(s, start, i + 1);
    }
}

/// A format string never yields an empty literal.
pub proof fn format_literals_nonempty(s: Seq<char>, k: int)
    requires
        0 <= k < format_segments(s).len(),
    ensures
        format_segments(s)[k] matches Segment::Literal(t) ==> t.len() > 0,
{
    segments_from_nonempty(s, 0, 0);
}

/// Splits a format string at its `{}` placeholders.
pub fn parse_format_string(s: &str) -> (r: Vec<FormatSegment>)
    ensures
        segment_views(r@) == format_segments(s@),
{
    let n: usize = s.unicode_len();
    let mut segs: Vec<FormatSegment> = Vec::new();
    let mut start: usize = 0;
    let mut i: usize = 0;
    proof {
        assert(segment_views(segs@) + format_segments(s@) =~= format_segments(s@));
    }
    while i < n
        invariant
            n == s@.len(),
            start <= i <= n,
            format_segments(s@) == segment_views(segs@) + segments_from(
                s@,
                start as int,
                i as int,
            ),
        decreases n - i,
    {
        if i + 1 < n && s.get_char(i) == '{' && s.get_char(i + 1) == '}' {
            let ghost before = segs@;
            if start < i {
                let text = s.substring_char(start, i).to_string();
                segs.push(FormatSegment::Literal(text));
            }
            segs.push(FormatSegment::Placeholder);
            proof {
                assert(segment_views(segs@) =~= segment_views(before) + literal(
                    s@,
                    start as int,
                    i as int,
                ) + seq![Segment::Placeholder]);
                assert(segment_views(segs@) + segments_from(s@, i + 2, i + 2) =~= segment_views(
                    before,
                ) + (literal(s@, start as int, i as int) + seq![Segment::Placeholder]
                    + segments_from(s@, i + 2, i + 2)));
            }
            i = i + 2;
            start = i;
        } else {
            i = i + 1;
        }
    }
    let ghost before = segs@;
    if start < n {
        let text = s.substring_char(start, n).to_string();
        segs.push(FormatSegment::Literal(text));
    }
    proof {
        assert(segment_views(segs@) =~= segment_views(before) + literal(
            s@,
            start as int,
            n as int,
        ));
    }
    segs
}

} // verus!
