use crate::text::opt_text;
use std::fmt::Write;
use vstd::prelude::*;

verus! {

/// What `chrono` writes for a point in time under a `strftime` template: the point is `secs`
/// seconds and `nanos` nanoseconds after the start of 1970 in universal time, and is shown as
/// the clocks show it that are `offset` seconds ahead of universal time. Nothing where the
/// point or the offset is out of `chrono`'s range, or the template is not one.
pub uninterp spec fn clock_text(secs: i64, nanos: u32, offset: i32, format: Seq<char>) -> Option<
    Seq<char>,
>;

/// Writes a point in time through `chrono`: `DateTime::from_timestamp` and
/// `FixedOffset::east_opt` make the point and the offset, or nothing where either is out of
/// range; `DateTime::with_timezone` moves the point to the offset; `DateTime::format` writes it,
/// or fails where the template is not one. The same arguments give the same text.
#[verifier::external_body]
fn format_clock(secs: i64, nanos: u32, offset: i32, format: &str) -> (r: Option<String>)
    ensures
        opt_text(r) == clock_text(secs, nanos, offset, format@),
{
    let utc = chrono::DateTime::from_timestamp(secs, nanos)?;
    let zone = chrono::FixedOffset::east_opt(offset)?;
    let mut out = String::new();
    write!(out, "{}", utc.with_timezone(&zone).format(format)).ok()?;
    Some(out)
}

/// The message for a time that cannot be written.
pub open spec fn no_time() -> Seq<char> {
    "Invalid time or time format"@
}

/// What a time task shows for the time as written, `written`: the text, or a failure where
/// there is none.
pub fn shown_time(written: Option<String>) -> (r: Result<Option<String>, String>)
    ensures
        match written {
            Some(text) => r == Ok::<Option<String>, String>(Some(text)),
            None => r is Err && r->Err_0@ == no_time(),
        },
{
    match written {
        Some(text) => Ok(Some(text)),
        None => Err("Invalid time or time format".to_owned()),
    }
}

/// What a time task shows at the point in time `secs` seconds and `nanos` nanoseconds after the
/// start of 1970, where the clocks are `offset` seconds ahead of universal time: the point
/// written under the template `format`, or a failure where it cannot be written.
pub fn time_text(format: &str, secs: i64, nanos: u32, offset: i32) -> (r: Result<
    Option<String>,
    String,
>)
    ensures
        match clock_text(secs, nanos, offset, format@) {
            Some(text) => r is Ok && opt_text(r->Ok_0) == Some(text),
            None => r is Err && r->Err_0@ == no_time(),
        },
{
    shown_time(format_clock(secs, nanos, offset, format))
}

/// The template of the time's text unless the configuration gives one.
pub fn default_format() -> (r: String)
    ensures
        r@ == "%H:%M"@,
{
    "%H:%M".to_owned()
}

} // verus!
