use crate::decimal::Decimal;
use crate::formatter::{output_view, render};
use crate::number::FromText;
use crate::utils::{
    duration_answer, duration_millis, first_field, first_line, format_duration, no_line,
    no_value, read_line_as,
};
use vstd::prelude::*;

verus! {

/// The template of the uptime's text unless the configuration gives one.
pub fn default_format() -> (r: String)
    ensures
        r@ == "%dd %Hh %Mm"@,
{
    "%dd %Hh %Mm".to_owned()
}

/// The text for the uptime that the kernel reports in `file`, whose first field is the uptime
/// in seconds, under the duration template `fmt`.
pub fn uptime_text(fmt: &str, file: &str) -> (r: Result<Option<String>, String>)
    ensures
        match first_line(file@) {
            None => r is Err && r->Err_0@ == no_line(),
            Some(line) => match Decimal::parsed(first_field(line)) {
                None => r is Err && r->Err_0@ == no_value(),
                Some(seconds) => output_view(r) == render(
                    fmt@,
                    |tag: char| duration_answer(duration_millis(seconds), tag),
                ),
            },
        },
{
    match read_line_as::<Decimal>(file) {
        Ok(seconds) => format_duration(fmt, seconds),
        Err(e) => Err(e),
    }
}

} // verus!
