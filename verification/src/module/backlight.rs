use crate::text::opt_str_text;
use vstd::prelude::*;

verus! {

/// What a token of a backlight's template stands for.
#[derive(Clone, Copy, Debug, PartialEq, Eq, Structural)]
pub enum Field {
    /// The brightness as it is, an integer.
    Current,
    /// The brightness as a share of the highest, a decimal.
    Share,
    /// The highest brightness, an integer.
    Max,
}

/// What the token `tag` stands for, and the option clause that goes with it: `c` for the
/// brightness, `u` for its share in hundredths, `m` for the highest brightness.
pub open spec fn token_of(tag: char) -> Option<(Field, Option<Seq<char>>)> {
    if tag == 'c' {
        Some((Field::Current, None))
    } else if tag == 'u' {
        Some((Field::Share, Some("[d.01]"@)))
    } else if tag == 'm' {
        Some((Field::Max, None))
    } else {
        None
    }
}

/// What `token` returns, as a plain value.
pub open spec fn token_view(r: Option<(Field, Option<&'static str>)>) -> Option<
    (Field, Option<Seq<char>>),
> {
    match r {
        Some((field, clause)) => Some((field, opt_str_text(clause))),
        None => None,
    }
}

/// What the token `tag` stands for, and the option clause that goes with it.
pub fn token(tag: char) -> (r: Option<(Field, Option<&'static str>)>)
    ensures
        token_view(r) == token_of(tag),
{
    if tag == 'c' {
        Some((Field::Current, None))
    } else if tag == 'u' {
        Some((Field::Share, Some("[d.01]")))
    } else if tag == 'm' {
        Some((Field::Max, None))
    } else {
        None
    }
}

/// The template of a backlight's text unless the configuration gives one.
pub fn default_format() -> (r: String)
    ensures
        r@ == "%u%%"@,
{
    "%u%%".to_owned()
}

} // verus!
