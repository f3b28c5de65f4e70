//! The display report: the number of GPU cores, found by its label.

use crate::command::decode_output;
use crate::cpu::count_view;
use crate::cpu::CoreCount;
use crate::error::Error;
use crate::error::Failure;
use crate::number::lemma_parse_u16_chars;
use crate::number::parse_u16;
use crate::number::parse_u16_spec;
use crate::text::chars_of;
use crate::text::is_white_space;
use crate::text::lemma_trim_start;
use crate::text::lines;
use crate::text::lines_of;
use crate::text::skip_space;
use crate::text::spans_cover;
use crate::text::starts_with;
use crate::text::trim_start;
use crate::text::Span;
use vstd::prelude::*;

verus! {

/// The label of the line that gives the number of GPU cores.
pub open spec fn core_label() -> Seq<char> {
    "Total Number of Cores"@
}

/// The line begins with the label, white space before it aside.
pub open spec fn names_core_count(line: Seq<char>) -> bool {
    core_label().is_prefix_of(trim_start(line))
}

/// The first of `lines` that names the core count, if there is one.
pub open spec fn first_core_line(lines: Seq<Seq<char>>) -> Option<Seq<char>>
    decreases lines.len(),
{
    if lines.len() == 0 {
        None
    } else if names_core_count(lines[0]) {
        Some(lines[0])
    } else {
        first_core_line(lines.skip(1))
    }
}

/// A colon and a space stand at position `i` of `s`.
pub open spec fn separator_at(s: Seq<char>, i: int) -> bool {
    0 <= i && i + 1 < s.len() && s[i] == ':' && s[i + 1] == ' '
}

/// Where the text begins that follows the last colon-and-space among those
/// that begin before position `n`; 0 where there is none.
pub open spec fn final_segment_start(s: Seq<char>, n: int) -> int
    decreases n,
{
    if n <= 0 {
        0
    } else if separator_at(s, n - 1) {
        n + 1
    } else {
        final_segment_start(s, n - 1)
    }
}

/// The last of the segments into which colon-and-space cuts `s`: what
/// follows the last one, or all of `s`.
pub open spec fn final_segment(s: Seq<char>) -> Seq<char> {
    s.skip(final_segment_start(s, s.len() as int))
}

/// What reading a display report gives: the number in the final segment of
/// the first line that names the core count. A report without such a line
/// is a parse failure, which holds the whole report.
pub open spec fn gpu_cores(text: Seq<char>) -> Result<CoreCount, Failure> {
    match first_core_line(lines_of(text)) {
        None => Err(Failure::Parse(text)),
        Some(line) => match parse_u16_spec(final_segment(line)) {
            Ok(v) => Ok(v),
            Err(kind) => Err(Failure::ParseInt(kind)),
        },
    }
}

/// What reading the bytes of a display report gives: bytes that are not
/// UTF-8 are a conversion failure, others are read as the text they encode.
pub open spec fn gpu_report(output: Seq<u8>) -> Result<CoreCount, Failure> {
    if vstd::utf8::valid_utf8(output) {
        gpu_cores(vstd::utf8::decode_utf8(output))
    } else {
        Err(Failure::Utf8Conversion)
    }
}

/// The final segment of a line lies in the line: it follows a
/// colon-and-space or is the whole line, and holds no colon-and-space.
pub proof fn lemma_final_segment(s: Seq<char>, n: int)
    requires
        0 <= n <= s.len(),
    ensures
        0 <= final_segment_start(s, n) <= n + 1,
        final_segment_start(s, n) <= s.len(),
        final_segment_start(s, n) == 0 || separator_at(s, final_segment_start(s, n) - 2),
        forall|i: int| final_segment_start(s, n) - 1 <= i < n ==> !separator_at(s, i),
    decreases n,
{
    if n > 0 && !separator_at(s, n - 1) {
        lemma_final_segment(s, n - 1);
    }
}

/// The first line that names the core count is found behind any number of
/// lines that do not; where no line names it, nothing is found.
pub proof fn lemma_first_core_line(lines: Seq<Seq<char>>, k: int)
    requires
        0 <= k <= lines.len(),
        forall|j: int| 0 <= j < k ==> !names_core_count(lines[j]),
        k < lines.len() ==> names_core_count(lines[k]),
    ensures
        first_core_line(lines) == if k < lines.len() {
            Some(lines[k])
        } else {
            None
        },
    decreases k,
{
    if k > 0 {
        let rest = lines.skip(1);
        assert forall|j: int| 0 <= j < k - 1 implies !names_core_count(rest[j]) by {
            assert(rest[j] == lines[j + 1]);
        }
        assert(!names_core_count(lines[0]));
        if k < lines.len() {
            assert(rest[k - 1] == lines[k]);
        }
        lemma_first_core_line(rest, k - 1);
    }
}

/// Behind a colon-and-space at position `at` that no other follows, the
/// final segment begins.
proof fn lemma_final_segment_start(s: Seq<char>, at: int, n: int)
    requires
        separator_at(s, at),
        at < n <= s.len(),
        forall|i: int| at < i < n ==> !separator_at(s, i),
    ensures
        final_segment_start(s, n) == at + 2,
    decreases n,
{
    if n - 1 > at {
        lemma_final_segment_start(s, at, n - 1);
    }
}

/// What follows a colon-and-space is the final segment if it holds no
/// colon.
pub proof fn lemma_final_segment_after(head: Seq<char>, tail: Seq<char>)
    requires
        forall|i: int| 0 <= i < tail.len() ==> tail[i] != ':',
    ensures
        final_segment(head + seq![':', ' '] + tail) == tail,
{
    let s = head + seq![':', ' '] + tail;
    let at = head.len() as int;
    assert(s[at] == ':');
    assert(s[at + 1] == ' ');
    assert forall|i: int| at < i < s.len() implies !separator_at(s, i) by {
        if i >= at + 2 {
            assert(s[i] == tail[i - at - 2]);
        }
    }
    lemma_final_segment_start(s, at, s.len() as int);
    assert(s.skip(at + 2) =~= tail);
}

/// A line made of white space, the label, a colon, a space and a number
/// gives that number, whatever lines stand around it, as long as no line
/// before it names the core count.
pub proof fn lemma_indented_core_line(text: Seq<char>, k: int, indent: Seq<char>, digits: Seq<char>)
    requires
        0 <= k < lines_of(text).len(),
        forall|j: int| 0 <= j < k ==> !names_core_count(lines_of(text)[j]),
        lines_of(text)[k] == indent + core_label() + seq![':', ' '] + digits,
        forall|j: int| 0 <= j < indent.len() ==> is_white_space(indent[j]),
        parse_u16_spec(digits) is Ok,
    ensures
        gpu_cores(text) == Ok::<CoreCount, Failure>(parse_u16_spec(digits)->Ok_0),
{
    let line = lines_of(text)[k];
    let rest = core_label() + seq![':', ' '] + digits;
    reveal_strlit("Total Number of Cores");
    assert(rest[0] == 'T');
    assert(line =~= indent + rest);
    lemma_trim_start(indent, rest);
    assert(rest.subrange(0, core_label().len() as int) =~= core_label());
    assert(names_core_count(line));
    lemma_first_core_line(lines_of(text), k);
    assert forall|i: int| 0 <= i < digits.len() implies digits[i] != ':' by {
        lemma_parse_u16_chars(digits, i);
    }
    lemma_final_segment_after(indent + core_label(), digits);
}

/// A report fails as one that lacks the line exactly if none of its lines
/// names the core count.
pub proof fn lemma_no_core_line(text: Seq<char>)
    ensures
        gpu_cores(text) == Err::<CoreCount, Failure>(Failure::Parse(text)) <==> forall|j: int|
            0 <= j < lines_of(text).len() ==> !names_core_count(#[trigger] lines_of(text)[j]),
{
    let lines = lines_of(text);
    if forall|j: int| 0 <= j < lines.len() ==> !names_core_count(#[trigger] lines[j]) {
        lemma_first_core_line(lines, lines.len() as int);
    } else {
        let j = choose|j: int| 0 <= j < lines.len() && names_core_count(#[trigger] lines[j]);
        lemma_first_named(lines, j);
    }
}

/// Where some line names the core count, one is found.
proof fn lemma_first_named(lines: Seq<Seq<char>>, j: int)
    requires
        0 <= j < lines.len(),
        names_core_count(lines[j]),
    ensures
        first_core_line(lines) is Some,
    decreases j,
{
    if j > 0 && !names_core_count(lines[0]) {
        assert(lines.skip(1)[j - 1] == lines[j]);
        lemma_first_named(lines.skip(1), j - 1);
    }
}

/// The bytes that encode a text are read as that text is.
pub proof fn lemma_gpu_report_of_text(text: Seq<char>)
    ensures
        gpu_report(vstd::utf8::encode_utf8(text)) == gpu_cores(text),
{
    vstd::utf8::encode_utf8_valid_utf8(text);
    vstd::utf8::encode_utf8_decode_utf8(text);
}

/// The part of `span` that follows its last colon-and-space.
pub fn last_segment(text: &Vec<char>, span: Span) -> (r: Span)
    requires
        span.fits(text@.len()),
    ensures
        r.fits(text@.len()),
        r.of(text@) == final_segment(span.of(text@)),
{
    let ghost line = span.of(text@);
    let mut n: usize = span.end - span.start;
    while n > 0
        invariant
            n <= span.end - span.start,
            span.fits(text@.len()),
            line == span.of(text@),
            final_segment_start(line, line.len() as int) == final_segment_start(line, n as int),
        decreases n,
    {
        let at: usize = span.start + (n - 1);
        if at + 1 < span.end && text[at] == ':' && text[at + 1] == ' ' {
            proof {
                assert(line[n - 1] == text[at as int]);
                assert(line[n as int] == text[at + 1]);
                assert(separator_at(line, n - 1));
                assert(line.skip(n + 1) =~= text@.subrange(at + 2, span.end as int));
            }
            return Span { start: at + 2, end: span.end };
        }
        proof {
            if n < line.len() {
                assert(line[n - 1] == text[at as int]);
                assert(line[n as int] == text[at + 1]);
            }
            assert(!separator_at(line, n - 1));
        }
        n = n - 1;
    }
    proof {
        assert(line.skip(0) =~= line);
    }
    span
}

/// Tells whether the line under `span` names the core count.
pub fn is_core_line(text: &Vec<char>, span: Span) -> (r: bool)
    requires
        span.fits(text@.len()),
    ensures
        r == names_core_count(span.of(text@)),
{
    let label = chars_of("Total Number of Cores");
    let rest = skip_space(text, span);
    starts_with(text, rest, &label)
}

/// Reads a display report.
pub fn parse_gpu_text(buffer: String) -> (r: Result<CoreCount, Error>)
    ensures
        count_view(r) == gpu_cores(buffer@),
{
    let text = chars_of(buffer.as_str());
    let all = lines(&text);
    let ghost parts = lines_of(text@);
    let mut k: usize = 0;
    proof {
        assert(parts.skip(0) =~= parts);
    }
    while k < all.len()
        invariant
            k <= all.len(),
            text@ == buffer@,
            parts == lines_of(text@),
            spans_cover(text@, all@, parts),
            first_core_line(parts) == first_core_line(parts.skip(k as int)),
        decreases all.len() - k,
    {
        let span = all[k];
        proof {
            assert(span.fits(text@.len()));
            assert(parts.skip(k as int)[0] == span.of(text@));
            assert(parts.skip(k as int).skip(1) =~= parts.skip(k + 1));
        }
        if is_core_line(&text, span) {
            let segment = last_segment(&text, span);
            return match parse_u16(&text, segment) {
                Ok(v) => Ok(v),
                Err(source) => Err(Error::ParseInt { source }),
            };
        }
        k = k + 1;
    }
    Err(Error::Parse(buffer))
}

/// Reads the bytes that the display-information program printed.
pub fn parse_gpu_info(output: Vec<u8>) -> (r: Result<CoreCount, Error>)
    ensures
        count_view(r) == gpu_report(output@),
{
    match decode_output(output) {
        Ok(buffer) => parse_gpu_text(buffer),
        Err(e) => Err(e),
    }
}

} // verus!
