use crate::text::{opt_str_text, same_text};
use vstd::prelude::*;

verus! {

/// The icon for the charging state `status` of a battery, as the kernel names it.
pub open spec fn icon_of(status: Seq<char>) -> Seq<char> {
    if status == "Charging"@ {
        "\u{1f50c}"@
    } else if status == "Full"@ || status == "Not charging"@ {
        "\u{2714}\u{fe0f}"@
    } else if status == "Discharging"@ {
        "\u{1f50b}"@
    } else {
        "?"@
    }
}

/// The icon for the charging state `status` of a battery.
pub fn get_icon(status: &str) -> (icon: String)
    ensures
        icon@ == icon_of(status@),
{
    if same_text(status, "Charging") {
        "\u{1f50c}".to_owned()
    } else if same_text(status, "Full") || same_text(status, "Not charging") {
        "\u{2714}\u{fe0f}".to_owned()
    } else if same_text(status, "Discharging") {
        "\u{1f50b}".to_owned()
    } else {
        "?".to_owned()
    }
}

/// The template of a battery's text unless the configuration gives one.
pub fn default_format() -> (r: String)
    ensures
        r@ == "%i %p%% (%w W %e)"@,
{
    "%i %p%% (%w W %e)".to_owned()
}

/// The duration template of a battery's estimate unless the configuration gives one.
pub fn default_est_time_format() -> (r: String)
    ensures
        r@ == "%h:%M"@,
{
    "%h:%M".to_owned()
}

/// What stands for the estimate where there is none to give.
pub fn no_estimate() -> (r: String)
    ensures
        r@ == "--:--"@,
{
    "--:--".to_owned()
}

/// What a token of a battery's template stands for.
#[derive(Clone, Copy, Debug, PartialEq, Eq, Structural)]
pub enum Field {
    /// The icon of the charging state, a text.
    Icon,
    /// The charge as a share of the full charge, a decimal.
    Capacity,
    /// The power drawn or taken up, in watts, a decimal.
    Power,
    /// The time until the battery is empty or full, a text.
    Estimate,
}

/// What the token `tag` stands for, and the option clause that goes with it: `i` for the icon,
/// `p` for the charge in hundredths, `w` for the power with one decimal, `e` for the estimate.
pub open spec fn token_of(tag: char) -> Option<(Field, Option<Seq<char>>)> {
    if tag == 'i' {
        Some((Field::Icon, None))
    } else if tag == 'p' {
        Some((Field::Capacity, Some("[d.01]"@)))
    } else if tag == 'w' {
        Some((Field::Power, Some("[p1]"@)))
    } else if tag == 'e' {
        Some((Field::Estimate, None))
    } else {
        None
    }
}

/// What `token` returns, as a plain value.
pub open spec fn token_view(r: Option<(Field, Option<&'static str>)>) -> Option<
    (Field, Option<Seq<char>>),
> {
    match r {
        Some((field, clause)) => Some((field, opt_str_text(clause))),
        None => None,
    }
}

/// What the token `tag` stands for, and the option clause that goes with it.
pub fn token(tag: char) -> (r: Option<(Field, Option<&'static str>)>)
    ensures
        token_view(r) == token_of(tag),
{
    if tag == 'i' {
        Some((Field::Icon, None))
    } else if tag == 'p' {
        Some((Field::Capacity, Some("[d.01]")))
    } else if tag == 'w' {
        Some((Field::Power, Some("[p1]")))
    } else if tag == 'e' {
        Some((Field::Estimate, None))
    } else {
        None
    }
}

} // verus!
