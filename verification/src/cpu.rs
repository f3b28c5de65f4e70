//! The CPU report: four lines, read by position.

use crate::command::decode_output;
use crate::error::Error;
use crate::error::Failure;
use crate::number::parse_u16;
use crate::number::parse_u16_spec;
use crate::number::lemma_parse_u16_chars;
use crate::text::chars_of;
use crate::text::lemma_split_first;
use crate::text::lemma_split_single;
use crate::text::split;
use crate::text::split_fields;
use crate::text::spans_cover;
use crate::text::Span;
use vstd::prelude::*;
use vstd::string::StrSliceExecFns;

verus! {

/// A number of cores.
pub type CoreCount = u16;

/// What the CPU report holds: the brand name, then the numbers of all
/// cores, of performance cores and of efficiency cores.
pub type CpuFields = (Seq<char>, CoreCount, CoreCount, CoreCount);

/// The count on line `k` of a report whose lines are `fields`. A line that
/// is not there is a parse failure, which holds the whole report; a line
/// that is no number is an integer failure.
pub open spec fn count_field(text: Seq<char>, fields: Seq<Seq<char>>, k: int) -> Result<
    CoreCount,
    Failure,
> {
    if k >= fields.len() {
        Err(Failure::Parse(text))
    } else {
        match parse_u16_spec(fields[k]) {
            Ok(v) => Ok(v),
            Err(kind) => Err(Failure::ParseInt(kind)),
        }
    }
}

/// What reading a CPU report gives. The report is cut at each line feed.
/// The first piece is the brand name, taken as it stands; it may not be
/// empty. The next three are the counts. The first piece that is missing or
/// malformed decides the failure; pieces after the fourth are not read.
pub open spec fn cpu_fields(text: Seq<char>) -> Result<CpuFields, Failure> {
    let fields = split_fields(text, '\n');
    if fields[0].len() == 0 {
        Err(Failure::Parse(text))
    } else {
        match count_field(text, fields, 1) {
            Err(e) => Err(e),
            Ok(total) => match count_field(text, fields, 2) {
                Err(e) => Err(e),
                Ok(performance) => match count_field(text, fields, 3) {
                    Err(e) => Err(e),
                    Ok(efficiency) => Ok((fields[0], total, performance, efficiency)),
                },
            },
        }
    }
}

/// What reading the bytes of a CPU report gives: bytes that are not UTF-8
/// are a conversion failure, others are read as the text they encode.
pub open spec fn cpu_report(output: Seq<u8>) -> Result<CpuFields, Failure> {
    if vstd::utf8::valid_utf8(output) {
        cpu_fields(vstd::utf8::decode_utf8(output))
    } else {
        Err(Failure::Utf8Conversion)
    }
}

/// The result of reading a CPU report, as a mathematical value.
pub open spec fn cpu_view(r: Result<(String, CoreCount, CoreCount, CoreCount), Error>) -> Result<
    CpuFields,
    Failure,
> {
    match r {
        Ok(fields) => Ok((fields.0@, fields.1, fields.2, fields.3)),
        Err(e) => Err(e@),
    }
}

/// The result of reading one count, as a mathematical value.
pub open spec fn count_view(r: Result<CoreCount, Error>) -> Result<CoreCount, Failure> {
    match r {
        Ok(v) => Ok(v),
        Err(e) => Err(e@),
    }
}

/// The text of four lines, each ended by a line feed.
pub open spec fn four_lines(
    brand: Seq<char>,
    total: Seq<char>,
    performance: Seq<char>,
    efficiency: Seq<char>,
) -> Seq<char> {
    brand + seq!['\n'] + total + seq!['\n'] + performance + seq!['\n'] + efficiency + seq!['\n']
}

/// A report of four lines, a brand name that is not empty and three
/// numbers, is read as exactly these four: the brand name as it stands, and
/// the value of each number.
pub proof fn lemma_four_lines_are_read(
    brand: Seq<char>,
    total: Seq<char>,
    performance: Seq<char>,
    efficiency: Seq<char>,
)
    requires
        brand.len() > 0,
        forall|j: int| 0 <= j < brand.len() ==> brand[j] != '\n',
        parse_u16_spec(total) is Ok,
        parse_u16_spec(performance) is Ok,
        parse_u16_spec(efficiency) is Ok,
    ensures
        cpu_fields(four_lines(brand, total, performance, efficiency)) == Ok::<CpuFields, Failure>(
            (
                brand,
                parse_u16_spec(total)->Ok_0,
                parse_u16_spec(performance)->Ok_0,
                parse_u16_spec(efficiency)->Ok_0,
            ),
        ),
{
    let nl = seq!['\n'];
    let empty = Seq::<char>::empty();
    let after_brand = total + nl + performance + nl + efficiency + nl;
    let after_total = performance + nl + efficiency + nl;
    let after_performance = efficiency + nl;
    let text = four_lines(brand, total, performance, efficiency);
    assert forall|j: int| 0 <= j < total.len() implies total[j] != '\n' by {
        lemma_parse_u16_chars(total, j);
    }
    assert forall|j: int| 0 <= j < performance.len() implies performance[j] != '\n' by {
        lemma_parse_u16_chars(performance, j);
    }
    assert forall|j: int| 0 <= j < efficiency.len() implies efficiency[j] != '\n' by {
        lemma_parse_u16_chars(efficiency, j);
    }
    assert(text =~= brand + nl + after_brand);
    assert(after_brand =~= total + nl + after_total);
    assert(after_total =~= performance + nl + after_performance);
    assert(after_performance =~= efficiency + nl + empty);
    lemma_split_first(brand, after_brand, '\n');
    lemma_split_first(total, after_total, '\n');
    lemma_split_first(performance, after_performance, '\n');
    lemma_split_first(efficiency, empty, '\n');
    lemma_split_single(empty, '\n');
    assert(split_fields(text, '\n') =~= seq![brand, total, performance, efficiency, empty]);
}

/// The bytes that encode a text are read as that text is.
pub proof fn lemma_cpu_report_of_text(text: Seq<char>)
    ensures
        cpu_report(vstd::utf8::encode_utf8(text)) == cpu_fields(text),
{
    vstd::utf8::encode_utf8_valid_utf8(text);
    vstd::utf8::encode_utf8_decode_utf8(text);
}

/// A report that is read has a brand name, and it is not empty.
pub proof fn lemma_brand_is_not_empty(text: Seq<char>)
    ensures
        cpu_fields(text) is Ok ==> cpu_fields(text)->Ok_0.0.len() > 0,
{
}

/// Reads the count on line `k` of the report `buffer`, whose characters are
/// `text` and whose lines are `fields`.
fn read_count(buffer: &String, text: &Vec<char>, fields: &Vec<Span>, k: usize) -> (r: Result<
    CoreCount,
    Error,
>)
    requires
        text@ == buffer@,
        spans_cover(text@, fields@, split_fields(text@, '\n')),
    ensures
        count_view(r) == count_field(buffer@, split_fields(buffer@, '\n'), k as int),
{
    if k >= fields.len() {
        return Err(Error::Parse(buffer.clone()));
    }
    let span = fields[k];
    assert(span.fits(text@.len()));
    match parse_u16(text, span) {
        Ok(v) => Ok(v),
        Err(source) => Err(Error::ParseInt { source }),
    }
}

/// Reads a CPU report.
pub fn parse_cpu_text(buffer: String) -> (r: Result<(String, CoreCount, CoreCount, CoreCount), Error>)
    ensures
        cpu_view(r) == cpu_fields(buffer@),
{
    let text = chars_of(buffer.as_str());
    let fields = split(&text, '\n');
    let first = fields[0];
    assert(first.fits(text@.len()));
    if first.start == first.end {
        return Err(Error::Parse(buffer));
    }
    let total = match read_count(&buffer, &text, &fields, 1) {
        Ok(v) => v,
        Err(e) => {
            return Err(e);
        },
    };
    let performance = match read_count(&buffer, &text, &fields, 2) {
        Ok(v) => v,
        Err(e) => {
            return Err(e);
        },
    };
    let efficiency = match read_count(&buffer, &text, &fields, 3) {
        Ok(v) => v,
        Err(e) => {
            return Err(e);
        },
    };
    let brand = buffer.as_str().substring_char(first.start, first.end).to_owned();
    Ok((brand, total, performance, efficiency))
}

/// Reads the bytes that the CPU-information program printed.
pub fn parse_cpu_info(output: Vec<u8>) -> (r: Result<
    (String, CoreCount, CoreCount, CoreCount),
    Error,
>)
    ensures
        cpu_view(r) == cpu_report(output@),
{
    match decode_output(output) {
        Ok(buffer) => parse_cpu_text(buffer),
        Err(e) => Err(e),
    }
}

} // verus!
