use crate::decimal::{pow10_of, Decimal};
use crate::formatter::{
    answer_view, answers_as, output_view, render, Answer, FmtGenInt64, FormatGenerator, Sample,
};
use crate::number::{div_toward_zero, pow10, trunc_div, FromText};
use crate::text::{chars_of, find_char, find_from, slice_of, string_of};
use vstd::prelude::*;

verus! {

/// The number of milliseconds in the span of `seconds` seconds: the thousandfold, rounded toward
/// zero, and held to what a signed 64-bit number can say.
pub open spec fn duration_millis(seconds: Decimal) -> i64 {
    let exact = trunc_div(seconds.units() * 1000, pow10(seconds.places()) as int);
    if exact > i64::MAX {
        i64::MAX
    } else if exact < i64::MIN {
        i64::MIN
    } else {
        exact as i64
    }
}

/// The option clause that a token of a duration template stands for, where it is one.
pub open spec fn duration_clause(tag: char) -> Option<Seq<char>> {
    if tag == 'd' {
        Some("[d86400000]"@)
    } else if tag == 'H' {
        Some("[d3600000 r24 z2]"@)
    } else if tag == 'h' {
        Some("[d3600000]"@)
    } else if tag == 'M' {
        Some("[d60000 r60 z2]"@)
    } else if tag == 'm' {
        Some("[d60000]"@)
    } else if tag == 'S' {
        Some("[d1000 r60 z2]"@)
    } else if tag == 's' {
        Some("[d1000]"@)
    } else if tag == 'L' {
        Some("[d1 r1000 z3]"@)
    } else if tag == 'l' {
        Some("[d1]"@)
    } else {
        None
    }
}

/// The sample that stands for the token `tag` in a duration template, for a span of `millis`
/// milliseconds: the span itself as an integer, with the token's divisor, modulus and padding.
pub open spec fn duration_answer(millis: i64, tag: char) -> Answer {
    match duration_clause(tag) {
        Some(clause) => Ok(Some(Sample::Int { val: Some(millis), defaults: Some(clause) })),
        None => Ok(None),
    }
}

/// The span of `seconds` seconds in milliseconds.
pub fn millis_of(seconds: Decimal) -> (ms: i64)
    ensures
        ms == duration_millis(seconds),
{
    let thousandfold: i128 = seconds.mantissa() as i128 * 1000;
    let unit = pow10_of(seconds.scale());
    let exact = div_toward_zero(thousandfold, unit as i128);
    if exact > i64::MAX as i128 {
        i64::MAX
    } else if exact < i64::MIN as i128 {
        i64::MIN
    } else {
        exact as i64
    }
}

/// The integer sample for a span of `millis` milliseconds under the option clause `clause`.
fn duration_sample(millis: i64, clause: &str) -> (r: Result<Option<FormatGenerator>, String>)
    ensures
        answer_view(r) == Ok::<Option<Sample>, Seq<char>>(
            Some(Sample::Int { val: Some(millis), defaults: Some(clause@) }),
        ),
{
    Ok(
        Some(
            FormatGenerator::OutputInt64(
                FmtGenInt64 { val: Some(millis), defaultfmt: Some(clause.to_owned()) },
            ),
        ),
    )
}

/// The sample for the token `tag` of a duration template.
pub fn duration_generator(millis: i64, tag: char) -> (r: Result<Option<FormatGenerator>, String>)
    ensures
        answer_view(r) == duration_answer(millis, tag),
{
    if tag == 'd' {
        duration_sample(millis, "[d86400000]")
    } else if tag == 'H' {
        duration_sample(millis, "[d3600000 r24 z2]")
    } else if tag == 'h' {
        duration_sample(millis, "[d3600000]")
    } else if tag == 'M' {
        duration_sample(millis, "[d60000 r60 z2]")
    } else if tag == 'm' {
        duration_sample(millis, "[d60000]")
    } else if tag == 'S' {
        duration_sample(millis, "[d1000 r60 z2]")
    } else if tag == 's' {
        duration_sample(millis, "[d1000]")
    } else if tag == 'L' {
        duration_sample(millis, "[d1 r1000 z3]")
    } else if tag == 'l' {
        duration_sample(millis, "[d1]")
    } else {
        Ok(None)
    }
}

/// Renders the duration template `fmt` for a span of `dur` seconds.
///
/// The tokens are `d` (whole days), `H` (hours of the day, two digits), `h` (whole hours), `M`
/// (minutes of the hour, two digits), `m` (whole minutes), `S` (seconds of the minute, two
/// digits), `s` (whole seconds), `L` (milliseconds of the second, three digits) and `l` (whole
/// milliseconds). An option clause after a token overrides what the token stands for.
pub fn format_duration(fmt: &str, dur: Decimal) -> (out: Result<Option<String>, String>)
    ensures
        output_view(out) == render(fmt@, |tag: char| duration_answer(duration_millis(dur), tag)),
        out is Ok,
{
    let millis = millis_of(dur);
    let resolver = |tag: char| -> (r: Result<Option<FormatGenerator>, String>)
        ensures
            answer_view(r) == duration_answer(millis, tag),
        { duration_generator(millis, tag) };
    let ghost resolve: spec_fn(char) -> Answer = |tag: char| duration_answer(millis, tag);
    let out = crate::formatter::format(fmt, resolver);
    proof {
        assert(answers_as(resolver, resolve));
        crate::formatter::lemma_render_answers(fmt@, resolve);
    }
    out
}

/// The first line of `file`, without its line ending; nothing where `file` is empty. A line
/// ends with a line feed, or a carriage return and a line feed.
pub open spec fn first_line(file: Seq<char>) -> Option<Seq<char>> {
    let end = find_from(file, 0, '\n');
    if file.len() == 0 {
        None
    } else if 0 < end < file.len() && file[end - 1] == '\r' {
        Some(file.take(end - 1))
    } else {
        Some(file.take(end))
    }
}

/// What stands before the first space of `line`; all of it where it has no space.
pub open spec fn first_field(line: Seq<char>) -> Seq<char> {
    line.take(find_from(line, 0, ' '))
}

/// The message for a file without a first line.
pub open spec fn no_line() -> Seq<char> {
    "File parse error"@
}

/// The message for a first field that does not read as the value asked for.
pub open spec fn no_value() -> Seq<char> {
    "Format error: invalid value"@
}

/// The first line of the file's content `file`.
pub fn read_line(file: &str) -> (r: Result<String, String>)
    ensures
        match first_line(file@) {
            Some(line) => r is Ok && r->Ok_0@ == line,
            None => r is Err && r->Err_0@ == no_line(),
        },
{
    let v = chars_of(file);
    if v.len() == 0 {
        return Err("File parse error".to_owned());
    }
    let end = find_char(&v, 0, '\n');
    let stop = if 0 < end && end < v.len() && v[end - 1] == '\r' {
        end - 1
    } else {
        end
    };
    let line = slice_of(&v, 0, stop);
    Ok(string_of(&line))
}

/// The first field of the first line of the file's content `file`, read as a `T`.
pub fn read_line_as<T: FromText>(file: &str) -> (r: Result<T, String>)
    ensures
        match first_line(file@) {
            None => r is Err && r->Err_0@ == no_line(),
            Some(line) => match T::parsed(first_field(line)) {
                Some(value) => r == Ok::<T, String>(value),
                None => r is Err && r->Err_0@ == no_value(),
            },
        },
{
    let line = match read_line(file) {
        Ok(line) => line,
        Err(e) => {
            return Err(e);
        },
    };
    let v = chars_of(line.as_str());
    let end = find_char(&v, 0, ' ');
    let field = slice_of(&v, 0, end);
    let field = string_of(&field);
    match T::parse(field.as_str()) {
        Some(value) => Ok(value),
        None => Err("Format error: invalid value".to_owned()),
    }
}

} // verus!
