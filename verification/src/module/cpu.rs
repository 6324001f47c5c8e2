use crate::text::{opt_str_text, opt_text, same_text, texts_of, words, words_of};
use vstd::prelude::*;

verus! {

/// The frequency that the line `line` of the kernel's report gives, as written: the fourth
/// word, where the line is made of four words and starts with `cpu MHz`.
pub open spec fn frequency_of(line: Seq<char>) -> Option<Seq<char>> {
    if words(line).len() == 4 && words(line)[0] == "cpu"@ && words(line)[1] == "MHz"@ {
        Some(words(line)[3])
    } else {
        None
    }
}

/// The frequency that the line `line` of the kernel's report gives, as written.
pub fn frequency(line: &str) -> (r: Option<String>)
    ensures
        opt_text(r) == frequency_of(line@),
{
    let fields = words_of(line);
    if fields.len() != 4 {
        return None;
    }
    assert(texts_of(fields@)[0] == fields@[0]@);
    assert(texts_of(fields@)[1] == fields@[1]@);
    assert(texts_of(fields@)[3] == fields@[3]@);
    if same_text(fields[0].as_str(), "cpu") && same_text(fields[1].as_str(), "MHz") {
        Some(fields[3].clone())
    } else {
        None
    }
}

/// The template of the processor's text unless the configuration gives one.
pub fn default_format() -> (r: String)
    ensures
        r@ == "%t\u{b0}C %F MHz"@,
{
    "%t\u{b0}C %F MHz".to_owned()
}

/// What a token of a processor's template stands for.
#[derive(Clone, Copy, Debug, PartialEq, Eq, Structural)]
pub enum Field {
    /// The temperature in thousandths of a degree, a decimal.
    Temperature,
    /// The frequency of the fastest core, a decimal.
    Highest,
    /// The frequency of the slowest core, a decimal.
    Lowest,
}

/// What the token `tag` stands for, and the option clause that goes with it: `t` for the
/// temperature in degrees with one decimal, `F` for the highest and `f` for the lowest
/// frequency.
pub open spec fn token_of(tag: char) -> Option<(Field, Option<Seq<char>>)> {
    if tag == 't' {
        Some((Field::Temperature, Some("[d1000 p1]"@)))
    } else if tag == 'F' {
        Some((Field::Highest, None))
    } else if tag == 'f' {
        Some((Field::Lowest, None))
    } else {
        None
    }
}

/// What `token` returns, as a plain value.
pub open spec fn token_view(r: Option<(Field, Option<&'static str>)>) -> Option<
    (Field, Option<Seq<char>>),
> {
    match r {
        Some((field, clause)) => Some((field, opt_str_text(clause))),
        None => None,
    }
}

/// What the token `tag` stands for, and the option clause that goes with it.
pub fn token(tag: char) -> (r: Option<(Field, Option<&'static str>)>)
    ensures
        token_view(r) == token_of(tag),
{
    if tag == 't' {
        Some((Field::Temperature, Some("[d1000 p1]")))
    } else if tag == 'F' {
        Some((Field::Highest, None))
    } else if tag == 'f' {
        Some((Field::Lowest, None))
    } else {
        None
    }
}

} // verus!
