use crate::text::{opt_str_text, same_text, texts_of, words, words_of};
use vstd::prelude::*;

verus! {

/// One of the amounts of memory that the kernel reports.
#[derive(Clone, Copy, Debug, PartialEq, Eq, Structural)]
pub enum MemField {
    /// All the memory there is.
    Total,
    /// The memory that programs can still have.
    Available,
    /// All the swap space there is.
    SwapTotal,
    /// The swap space that is not in use.
    SwapFree,
}

/// The amount that the label `label` names, where it names one.
pub open spec fn field_of(label: Seq<char>) -> Option<MemField> {
    if label == "MemTotal:"@ {
        Some(MemField::Total)
    } else if label == "MemAvailable:"@ {
        Some(MemField::Available)
    } else if label == "SwapTotal:"@ {
        Some(MemField::SwapTotal)
    } else if label == "SwapFree:"@ {
        Some(MemField::SwapFree)
    } else {
        None
    }
}

/// What the line `line` of the kernel's report says: an amount and its value as written, where
/// the line is made of three words and the first names an amount.
pub open spec fn reading_of(line: Seq<char>) -> Option<(MemField, Seq<char>)> {
    if words(line).len() == 3 {
        match field_of(words(line)[0]) {
            Some(field) => Some((field, words(line)[1])),
            None => None,
        }
    } else {
        None
    }
}

/// What `reading` returns, as a plain value.
pub open spec fn reading_view(r: Option<(MemField, String)>) -> Option<(MemField, Seq<char>)> {
    match r {
        Some((field, value)) => Some((field, value@)),
        None => None,
    }
}

/// What the line `line` of the kernel's report says.
pub fn reading(line: &str) -> (r: Option<(MemField, String)>)
    ensures
        reading_view(r) == reading_of(line@),
{
    let fields = words_of(line);
    if fields.len() != 3 {
        return None;
    }
    assert(texts_of(fields@)[0] == fields@[0]@);
    assert(texts_of(fields@)[1] == fields@[1]@);
    let label = fields[0].as_str();
    let field = if same_text(label, "MemTotal:") {
        MemField::Total
    } else if same_text(label, "MemAvailable:") {
        MemField::Available
    } else if same_text(label, "SwapTotal:") {
        MemField::SwapTotal
    } else if same_text(label, "SwapFree:") {
        MemField::SwapFree
    } else {
        return None;
    };
    Some((field, fields[1].clone()))
}

/// The template of the memory's text unless the configuration gives one.
pub fn default_format() -> (r: String)
    ensures
        r@ == "%p%%/%s%%"@,
{
    "%p%%/%s%%".to_owned()
}

/// What a token of the memory's template stands for: an amount of memory or of swap space,
/// in use or free, as it is or as a share of all there is.
#[derive(Clone, Copy, Debug, PartialEq, Eq, Structural)]
pub struct Field {
    pub swap: bool,
    pub used: bool,
    pub share: bool,
}

/// What the token `tag` stands for, and the option clause that goes with it. The letters `p`
/// and `h` stand for memory, `s` and `w` for swap space; `p` and `s` for a share in
/// hundredths, `h` and `w` for an amount; a small letter for what is in use, a capital for what
/// is free.
pub open spec fn token_of(tag: char) -> Option<(Field, Option<Seq<char>>)> {
    if tag == 'p' {
        Some((Field { swap: false, used: true, share: true }, Some("[d.01]"@)))
    } else if tag == 'P' {
        Some((Field { swap: false, used: false, share: true }, Some("[d.01]"@)))
    } else if tag == 'h' {
        Some((Field { swap: false, used: true, share: false }, None))
    } else if tag == 'H' {
        Some((Field { swap: false, used: false, share: false }, None))
    } else if tag == 's' {
        Some((Field { swap: true, used: true, share: true }, Some("[d.01]"@)))
    } else if tag == 'S' {
        Some((Field { swap: true, used: false, share: true }, Some("[d.01]"@)))
    } else if tag == 'w' {
        Some((Field { swap: true, used: true, share: false }, None))
    } else if tag == 'W' {
        Some((Field { swap: true, used: false, share: false }, None))
    } else {
        None
    }
}

/// What `token` returns, as a plain value.
pub open spec fn token_view(r: Option<(Field, Option<&'static str>)>) -> Option<
    (Field, Option<Seq<char>>),
> {
    match r {
        Some((field, clause)) => Some((field, opt_str_text(clause))),
        None => None,
    }
}

/// What the token `tag` stands for, and the option clause that goes with it.
pub fn token(tag: char) -> (r: Option<(Field, Option<&'static str>)>)
    ensures
        token_view(r) == token_of(tag),
{
    let share = Some("[d.01]");
    if tag == 'p' {
        Some((Field { swap: false, used: true, share: true }, share))
    } else if tag == 'P' {
        Some((Field { swap: false, used: false, share: true }, share))
    } else if tag == 'h' {
        Some((Field { swap: false, used: true, share: false }, None))
    } else if tag == 'H' {
        Some((Field { swap: false, used: false, share: false }, None))
    } else if tag == 's' {
        Some((Field { swap: true, used: true, share: true }, share))
    } else if tag == 'S' {
        Some((Field { swap: true, used: false, share: true }, share))
    } else if tag == 'w' {
        Some((Field { swap: true, used: true, share: false }, None))
    } else if tag == 'W' {
        Some((Field { swap: true, used: false, share: false }, None))
    } else {
        None
    }
}

} // verus!
