//! Text as a sequence of characters: the operations that the parsers share.
//!
//! Executable functions work on a `Vec<char>` and hand out [`Span`]s into it;
//! their contracts are stated over `Seq<char>`.

use vstd::prelude::*;

verus! {

/// A half-open range `start..end` of positions in a text.
#[derive(Clone, Copy, Debug, PartialEq, Eq, Structural)]
pub struct Span {
    pub start: usize,
    pub end: usize,
}

impl Span {
    /// The span lies inside a text of `len` characters.
    pub open spec fn fits(self, len: nat) -> bool {
        self.start <= self.end <= len
    }

    /// The characters of `text` that the span covers.
    pub open spec fn of(self, text: Seq<char>) -> Seq<char> {
        text.subrange(self.start as int, self.end as int)
    }
}

/// Every span lies inside `text`, and the spans cover `parts`, one for one.
pub open spec fn spans_cover(text: Seq<char>, spans: Seq<Span>, parts: Seq<Seq<char>>) -> bool {
    &&& spans.len() == parts.len()
    &&& forall|k: int|
        0 <= k < spans.len() ==> (#[trigger] spans[k]).fits(text.len()) && spans[k].of(text)
            == parts[k]
}

/// Position of the first `c` in `s`, or `s.len()` where `s` holds none.
pub open spec fn first_index_of(s: Seq<char>, c: char) -> int
    decreases s.len(),
{
    if s.len() == 0 || s[0] == c {
        0
    } else {
        1 + first_index_of(s.skip(1), c)
    }
}

/// The pieces of `s` between occurrences of `sep`. There is always at least
/// one piece; a text that ends in `sep` has an empty last piece.
pub open spec fn split_fields(s: Seq<char>, sep: char) -> Seq<Seq<char>>
    decreases s.len(),
{
    let i = first_index_of(s, sep);
    if 0 <= i < s.len() {
        seq![s.take(i)] + split_fields(s.skip(i + 1), sep)
    } else {
        seq![s]
    }
}

/// A line without the carriage return that may end it.
pub open spec fn strip_cr(line: Seq<char>) -> Seq<char> {
    if line.len() > 0 && line.last() == '\r' {
        line.drop_last()
    } else {
        line
    }
}

/// The lines of `s`. A line ends at a line feed, or at a carriage return
/// directly followed by one; neither belongs to the line. What follows the
/// last line feed is a line only if it is not empty.
pub open spec fn lines_of(s: Seq<char>) -> Seq<Seq<char>> {
    let fields = split_fields(s, '\n');
    let ended = fields.drop_last().map_values(|l: Seq<char>| strip_cr(l));
    if fields.last().len() == 0 {
        ended
    } else {
        ended.push(fields.last())
    }
}

/// The characters that count as white space.
pub open spec fn is_white_space(c: char) -> bool {
    let u = c as u32;
    ||| 0x09 <= u <= 0x0D
    ||| u == 0x20
    ||| u == 0x85
    ||| u == 0xA0
    ||| u == 0x1680
    ||| 0x2000 <= u <= 0x200A
    ||| u == 0x2028
    ||| u == 0x2029
    ||| u == 0x202F
    ||| u == 0x205F
    ||| u == 0x3000
}

/// Number of white-space characters that `s` begins with.
pub open spec fn leading_space(s: Seq<char>) -> int
    decreases s.len(),
{
    if s.len() > 0 && is_white_space(s[0]) {
        1 + leading_space(s.skip(1))
    } else {
        0
    }
}

/// `s` without the white space that it begins with.
pub open spec fn trim_start(s: Seq<char>) -> Seq<char> {
    s.skip(leading_space(s))
}

/// `needle` occurs in `hay` at position `i`.
pub open spec fn occurs_at(hay: Seq<char>, needle: Seq<char>, i: int) -> bool {
    0 <= i && i + needle.len() <= hay.len() && hay.subrange(i, i + needle.len()) == needle
}

/// `needle` occurs somewhere in `hay`.
pub open spec fn has_substring(hay: Seq<char>, needle: Seq<char>) -> bool {
    exists|i: int| occurs_at(hay, needle, i)
}

/// Where the first `c` of `s` stands: nothing before it is `c`.
pub proof fn lemma_first_index_of(s: Seq<char>, c: char, i: int)
    requires
        0 <= i <= s.len(),
        forall|j: int| 0 <= j < i ==> s[j] != c,
        i < s.len() ==> s[i] == c,
    ensures
        first_index_of(s, c) == i,
    decreases i,
{
    if i > 0 {
        let rest = s.skip(1);
        assert forall|j: int| 0 <= j < i - 1 implies rest[j] != c by {
            assert(rest[j] == s[j + 1]);
        }
        lemma_first_index_of(rest, c, i - 1);
    }
}

/// What `first_index_of` returns lies in the text and is the first `c`.
pub proof fn lemma_first_index_of_bounds(s: Seq<char>, c: char)
    ensures
        0 <= first_index_of(s, c) <= s.len(),
        forall|j: int| 0 <= j < first_index_of(s, c) ==> s[j] != c,
        first_index_of(s, c) < s.len() ==> s[first_index_of(s, c)] == c,
    decreases s.len(),
{
    if !(s.len() == 0 || s[0] == c) {
        let rest = s.skip(1);
        lemma_first_index_of_bounds(rest, c);
        let i = first_index_of(s, c);
        assert forall|j: int| 0 <= j < i implies s[j] != c by {
            if j > 0 {
                assert(s[j] == rest[j - 1]);
            }
        }
        if i < s.len() {
            assert(s[i] == rest[i - 1]);
        }
    }
}

/// A text that begins with a piece free of `sep`, followed by `sep`, is cut
/// into that piece and the pieces of what follows.
pub proof fn lemma_split_first(piece: Seq<char>, rest: Seq<char>, sep: char)
    requires
        forall|j: int| 0 <= j < piece.len() ==> piece[j] != sep,
    ensures
        split_fields(piece + seq![sep] + rest, sep) == seq![piece] + split_fields(rest, sep),
{
    let s = piece + seq![sep] + rest;
    let i = piece.len() as int;
    assert(s[i] == sep);
    assert forall|j: int| 0 <= j < i implies s[j] != sep by {
        assert(s[j] == piece[j]);
    }
    lemma_first_index_of(s, sep, i);
    assert(s.take(i) =~= piece);
    assert(s.skip(i + 1) =~= rest);
}

/// A text free of `sep` is one piece.
pub proof fn lemma_split_single(piece: Seq<char>, sep: char)
    requires
        forall|j: int| 0 <= j < piece.len() ==> piece[j] != sep,
    ensures
        split_fields(piece, sep) == seq![piece],
{
    lemma_first_index_of(piece, sep, piece.len() as int);
}

/// White space before a text that does not begin with white space is what
/// trimming takes away, all of it and no more.
pub proof fn lemma_trim_start(indent: Seq<char>, rest: Seq<char>)
    requires
        forall|j: int| 0 <= j < indent.len() ==> is_white_space(indent[j]),
        rest.len() == 0 || !is_white_space(rest[0]),
    ensures
        leading_space(indent + rest) == indent.len(),
        trim_start(indent + rest) == rest,
    decreases indent.len(),
{
    let s = indent + rest;
    if indent.len() == 0 {
        assert(s =~= rest);
    } else {
        assert(s[0] == indent[0]);
        assert(s.skip(1) =~= indent.skip(1) + rest);
        lemma_trim_start(indent.skip(1), rest);
    }
    assert(s.skip(indent.len() as int) =~= rest);
}

/// The characters of `s`, in order.
pub fn chars_of(s: &str) -> (r: Vec<char>)
    ensures
        r@ == s@,
{
    let mut out: Vec<char> = Vec::new();
    for c in it: s.chars()
        invariant
            out@ == it.seq().take(it.index()),
    {
        out.push(c);
    }
    out
}

/// Position of the first `c` at or after `from`, or the text's length.
pub fn find_char(text: &Vec<char>, from: usize, c: char) -> (i: usize)
    requires
        from <= text.len(),
    ensures
        from <= i <= text.len(),
        i == from + first_index_of(text@.skip(from as int), c),
        forall|j: int| from <= j < i ==> text[j] != c,
        i < text.len() ==> text[i as int] == c,
{
    let mut i: usize = from;
    while i < text.len() && text[i] != c
        invariant
            from <= i <= text.len(),
            forall|j: int| from <= j < i ==> text[j] != c,
        decreases text.len() - i,
    {
        i = i + 1;
    }
    proof {
        lemma_first_index_of(text@.skip(from as int), c, i - from);
    }
    i
}

/// Splits `text` at each `sep`: one span for each piece, in order.
pub fn split(text: &Vec<char>, sep: char) -> (r: Vec<Span>)
    ensures
        spans_cover(text@, r@, split_fields(text@, sep)),
        r.len() >= 1,
{
    let mut out: Vec<Span> = Vec::new();
    let mut start: usize = 0;
    let ghost mut parts: Seq<Seq<char>> = Seq::empty();
    proof {
        assert(text@.skip(0) =~= text@);
        assert(parts + split_fields(text@, sep) =~= split_fields(text@, sep));
    }
    loop
        invariant_except_break
            split_fields(text@, sep) == parts + split_fields(text@.skip(start as int), sep),
        invariant
            start <= text.len(),
            spans_cover(text@, out@, parts),
        ensures
            spans_cover(text@, out@, split_fields(text@, sep)),
            out.len() >= 1,
        decreases text.len() - start,
    {
        let end = find_char(text, start, sep);
        let span = Span { start, end };
        let ghost rest = text@.skip(start as int);
        proof {
            assert(rest.take(end - start) =~= span.of(text@));
        }
        out.push(span);
        if end == text.len() {
            proof {
                assert(rest =~= span.of(text@));
                assert(split_fields(rest, sep) == seq![rest]);
                assert(parts + seq![rest] =~= parts.push(span.of(text@)));
                parts = parts.push(span.of(text@));
            }
            break;
        }
        proof {
            assert(rest.skip(end - start + 1) =~= text@.skip(end + 1));
            assert(split_fields(rest, sep) == seq![span.of(text@)] + split_fields(
                text@.skip(end + 1),
                sep,
            ));
            assert(parts + (seq![span.of(text@)] + split_fields(text@.skip(end + 1), sep))
                =~= parts.push(span.of(text@)) + split_fields(text@.skip(end + 1), sep));
            parts = parts.push(span.of(text@));
        }
        start = end + 1;
    }
    out
}

/// Splits `text` into its lines: one span for each line, in order.
pub fn lines(text: &Vec<char>) -> (r: Vec<Span>)
    ensures
        spans_cover(text@, r@, lines_of(text@)),
{
    let fields = split(text, '\n');
    let ghost parts = split_fields(text@, '\n');
    let ghost ended = parts.drop_last().map_values(|l: Seq<char>| strip_cr(l));
    let mut out: Vec<Span> = Vec::new();
    let last: usize = fields.len() - 1;
    let mut k: usize = 0;
    while k < last
        invariant
            k <= last,
            last + 1 == fields.len(),
            parts == split_fields(text@, '\n'),
            ended == parts.drop_last().map_values(|l: Seq<char>| strip_cr(l)),
            spans_cover(text@, fields@, parts),
            spans_cover(text@, out@, ended.take(k as int)),
        decreases last - k,
    {
        let field = fields[k];
        let ghost line = field.of(text@);
        assert(field.fits(text@.len()));
        assert(line == parts[k as int]);
        let end: usize = if field.end > field.start && text[field.end - 1] == '\r' {
            field.end - 1
        } else {
            field.end
        };
        let span = Span { start: field.start, end };
        proof {
            if field.end > field.start {
                assert(line.last() == text[field.end - 1]);
            }
            assert(span.of(text@) =~= strip_cr(line));
            assert(ended[k as int] == strip_cr(parts.drop_last()[k as int]));
            assert(ended.take(k + 1) =~= ended.take(k as int).push(span.of(text@)));
        }
        out.push(span);
        k = k + 1;
    }
    let field = fields[last];
    proof {
        assert(field.fits(text@.len()));
        assert(field.of(text@) == parts.last());
        assert(ended.take(last as int) =~= ended);
    }
    if field.end > field.start {
        out.push(field);
    }
    out
}

/// Tells whether `c` is white space.
pub fn white_space(c: char) -> (r: bool)
    ensures
        r == is_white_space(c),
{
    let u: u32 = c as u32;
    (0x09 <= u && u <= 0x0D) || u == 0x20 || u == 0x85 || u == 0xA0 || u == 0x1680 || (0x2000
        <= u && u <= 0x200A) || u == 0x2028 || u == 0x2029 || u == 0x202F || u == 0x205F || u
        == 0x3000
}

/// The part of `span` that is left when the white space at its start is
/// taken away.
pub fn skip_space(text: &Vec<char>, span: Span) -> (r: Span)
    requires
        span.fits(text@.len()),
    ensures
        r.fits(text@.len()),
        r.end == span.end,
        r.start == span.start + leading_space(span.of(text@)),
        r.of(text@) == trim_start(span.of(text@)),
{
    let mut i: usize = span.start;
    let ghost line = span.of(text@);
    proof {
        assert(line.skip(0) =~= line);
    }
    while i < span.end && white_space(text[i])
        invariant
            span.start <= i <= span.end <= text.len(),
            line == span.of(text@),
            leading_space(line) == (i - span.start) + leading_space(line.skip(i - span.start)),
        decreases span.end - i,
    {
        proof {
            let rest = line.skip(i - span.start);
            assert(rest[0] == text[i as int]);
            assert(rest.skip(1) =~= line.skip(i - span.start + 1));
        }
        i = i + 1;
    }
    proof {
        let rest = line.skip(i - span.start);
        if i < span.end {
            assert(rest[0] == text[i as int]);
        }
        assert(leading_space(rest) == 0);
        assert(line.skip(i - span.start) =~= text@.subrange(i as int, span.end as int));
    }
    Span { start: i, end: span.end }
}

/// Tells whether the characters under `span` begin with `prefix`.
pub fn starts_with(text: &Vec<char>, span: Span, prefix: &Vec<char>) -> (r: bool)
    requires
        span.fits(text@.len()),
    ensures
        r == prefix@.is_prefix_of(span.of(text@)),
{
    let ghost line = span.of(text@);
    if prefix.len() > span.end - span.start {
        return false;
    }
    let mut k: usize = 0;
    while k < prefix.len()
        invariant
            k <= prefix.len() <= span.end - span.start,
            span.fits(text@.len()),
            line == span.of(text@),
            forall|j: int| 0 <= j < k ==> line[j] == prefix[j],
        decreases prefix.len() - k,
    {
        if text[span.start + k] != prefix[k] {
            proof {
                assert(line[k as int] != prefix[k as int]);
                assert(line.subrange(0, prefix@.len() as int)[k as int] == line[k as int]);
            }
            return false;
        }
        k = k + 1;
    }
    proof {
        assert(line.subrange(0, prefix@.len() as int) =~= prefix@);
    }
    true
}

/// Tells whether `needle` occurs somewhere in `hay`.
pub fn contains(hay: &Vec<char>, needle: &Vec<char>) -> (r: bool)
    ensures
        r == has_substring(hay@, needle@),
{
    if needle.len() > hay.len() {
        return false;
    }
    let last: usize = hay.len() - needle.len();
    let mut i: usize = 0;
    while i <= last
        invariant
            i <= last + 1,
            last + needle.len() == hay.len(),
            forall|j: int| 0 <= j < i ==> !occurs_at(hay@, needle@, j),
        decreases last + 1 - i,
    {
        let tail = Span { start: i, end: hay.len() };
        if starts_with(hay, tail, needle) {
            proof {
                assert(tail.of(hay@).subrange(0, needle@.len() as int) =~= hay@.subrange(
                    i as int,
                    i + needle@.len(),
                ));
                assert(occurs_at(hay@, needle@, i as int));
            }
            return true;
        }
        proof {
            assert(tail.of(hay@).subrange(0, needle@.len() as int) =~= hay@.subrange(
                i as int,
                i + needle@.len(),
            ));
        }
        i = i + 1;
    }
    false
}

} // verus!
