use crate::decimal::{decimal_text, format_decimal, parse_decimal, read_decimal, Decimal};
use crate::number::{format_int, int_text, parse_i64, parse_usize, read_i64, read_usize};
use crate::text::{
    append_chars, chars_of, find_char, find_from, lemma_find_from_bounds, opt_str_text, opt_text,
    slice_of, string_of,
};
use vstd::prelude::*;

verus! {

/// A text sample; `None` where the sampler had no data.
pub struct FmtGenString {
    pub val: Option<String>,
}

/// A decimal sample, with the option clause that its sampler asks for by default.
pub struct FmtGenFloat64 {
    pub val: Option<Decimal>,
    pub defaultfmt: Option<String>,
}

/// An integer sample, with the option clause that its sampler asks for by default.
pub struct FmtGenInt64 {
    pub val: Option<i64>,
    pub defaultfmt: Option<String>,
}

/// What a sampler hands to the template engine for one token.
pub enum FormatGenerator {
    OutputString(FmtGenString),
    OutputFloat64(FmtGenFloat64),
    OutputInt64(FmtGenInt64),
}

/// A `FormatGenerator` as a plain value.
#[allow(inconsistent_fields)]
pub enum Sample {
    Text(Option<Seq<char>>),
    Decimal { val: Option<Decimal>, defaults: Option<Seq<char>> },
    Int { val: Option<i64>, defaults: Option<Seq<char>> },
}

impl View for FormatGenerator {
    type V = Sample;

    open spec fn view(&self) -> Sample {
        match *self {
            FormatGenerator::OutputString(g) => Sample::Text(opt_text(g.val)),
            FormatGenerator::OutputFloat64(g) => Sample::Decimal {
                val: g.val,
                defaults: opt_text(g.defaultfmt),
            },
            FormatGenerator::OutputInt64(g) => Sample::Int {
                val: g.val,
                defaults: opt_text(g.defaultfmt),
            },
        }
    }
}

/// The value of one numeric option.
#[derive(Clone, Copy)]
pub enum FormatOptionParamVal {
    TypeFloat64(Decimal),
    TypeInt64(i64),
    TypeUsize(usize),
}

/// One numeric option: the letter that names it in an option clause, and its value.
#[derive(Clone, Copy)]
pub struct FormatOptionParam {
    pub id: char,
    pub val: FormatOptionParamVal,
}

/// The option `opt` after the word `tag` of an option clause. A word whose first letter is the
/// option's, and whose rest reads as a number of the option's kind, sets the option; any other
/// word leaves it alone.
pub open spec fn updated_param(opt: FormatOptionParam, tag: Seq<char>) -> FormatOptionParam {
    if tag.len() > 0 && opt.id == tag[0] {
        match opt.val {
            FormatOptionParamVal::TypeFloat64(_) => match parse_decimal(tag.skip(1)) {
                Some(d) => FormatOptionParam { id: opt.id, val: FormatOptionParamVal::TypeFloat64(d) },
                None => opt,
            },
            FormatOptionParamVal::TypeInt64(_) => match parse_i64(tag.skip(1)) {
                Some(n) => FormatOptionParam { id: opt.id, val: FormatOptionParamVal::TypeInt64(n) },
                None => opt,
            },
            FormatOptionParamVal::TypeUsize(_) => match parse_usize(tag.skip(1)) {
                Some(n) => FormatOptionParam { id: opt.id, val: FormatOptionParamVal::TypeUsize(n) },
                None => opt,
            },
        }
    } else {
        opt
    }
}

/// The option table `opts` after the word `tag` of an option clause.
pub open spec fn updated_params(opts: Seq<FormatOptionParam>, tag: Seq<char>) -> Seq<
    FormatOptionParam,
> {
    Seq::new(opts.len(), |i: int| updated_param(opts[i], tag))
}

/// Whether two option tables have the same letters and kinds, place by place.
pub open spec fn same_shape(a: Seq<FormatOptionParam>, b: Seq<FormatOptionParam>) -> bool {
    &&& a.len() == b.len()
    &&& forall|i: int|
        0 <= i < a.len() ==> {
            &&& (#[trigger] a[i]).id == b[i].id
            &&& a[i].val is TypeFloat64 <==> b[i].val is TypeFloat64
            &&& a[i].val is TypeInt64 <==> b[i].val is TypeInt64
            &&& a[i].val is TypeUsize <==> b[i].val is TypeUsize
        }
}

/// Applies the word `tagstr` of an option clause to the table `opts`.
pub fn setfmtoptparam(opts: &mut Vec<FormatOptionParam>, tagstr: &Vec<char>)
    ensures
        final(opts)@ == updated_params(old(opts)@, tagstr@),
        same_shape(old(opts)@, final(opts)@),
{
    if tagstr.len() == 0 {
        assert(opts@ == updated_params(opts@, tagstr@));
        return ;
    }
    let tag = tagstr[0];
    let contents = slice_of(tagstr, 1, tagstr.len());
    assert(contents@ == tagstr@.skip(1));
    let mut i: usize = 0;
    while i < opts.len()
        invariant
            i <= opts.len(),
            opts.len() == old(opts).len(),
            tagstr.len() > 0,
            tag == tagstr@[0],
            contents@ == tagstr@.skip(1),
            forall|j: int| 0 <= j < i ==> opts@[j] == updated_param(#[trigger] old(opts)@[j], tagstr@),
            forall|j: int| i <= j < opts.len() ==> opts@[j] == old(opts)@[j],
        decreases opts.len() - i,
    {
        let opt = opts[i];
        if opt.id == tag {
            match opt.val {
                FormatOptionParamVal::TypeFloat64(_) => {
                    if let Some(d) = read_decimal(&contents) {
                        opts.set(
                            i,
                            FormatOptionParam { id: opt.id, val: FormatOptionParamVal::TypeFloat64(d) },
                        );
                    }
                },
                FormatOptionParamVal::TypeUsize(_) => {
                    if let Some(n) = read_usize(&contents) {
                        opts.set(
                            i,
                            FormatOptionParam { id: opt.id, val: FormatOptionParamVal::TypeUsize(n) },
                        );
                    }
                },
                FormatOptionParamVal::TypeInt64(_) => {
                    if let Some(n) = read_i64(&contents) {
                        opts.set(
                            i,
                            FormatOptionParam { id: opt.id, val: FormatOptionParamVal::TypeInt64(n) },
                        );
                    }
                },
            }
        }
        i += 1;
    }
    assert(opts@ =~= updated_params(old(opts)@, tagstr@));
}

/// The option table `opts` after the words of `body`, taken from left to right. Words are what
/// stands between spaces.
pub open spec fn after_words(opts: Seq<FormatOptionParam>, body: Seq<char>) -> Seq<
    FormatOptionParam,
>
    decreases body.len(),
{
    if body.len() == 0 {
        opts
    } else if body[0] == ' ' {
        after_words(opts, body.skip(1))
    } else {
        let n = find_from(body, 1, ' ');
        if 1 <= n <= body.len() {
            after_words(updated_params(opts, body.take(n)), body.skip(n))
        } else {
            opts
        }
    }
}

/// Whether an option clause starts at `pos` in `text`.
pub open spec fn has_clause(text: Seq<char>, pos: int) -> bool {
    0 <= pos < text.len() && text[pos] == '['
}

/// Where the closing bracket of the option clause that starts at `pos` stands; the length of
/// `text` where the clause is not closed.
pub open spec fn clause_close(text: Seq<char>, pos: int) -> int {
    find_from(text, pos + 1, ']')
}

/// How many characters the option clause at `pos` takes, brackets included; zero where none
/// starts there.
pub open spec fn clause_len(text: Seq<char>, pos: int) -> nat {
    if has_clause(text, pos) {
        if clause_close(text, pos) < text.len() {
            (clause_close(text, pos) + 1 - pos) as nat
        } else {
            (text.len() - pos) as nat
        }
    } else {
        0
    }
}

/// The option table `opts` after the option clause at `pos` in `text`, where one starts there.
pub open spec fn after_clause(opts: Seq<FormatOptionParam>, text: Seq<char>, pos: int) -> Seq<
    FormatOptionParam,
> {
    if has_clause(text, pos) {
        after_words(opts, text.subrange(pos + 1, clause_close(text, pos)))
    } else {
        opts
    }
}

/// An option clause ends within the template.
pub proof fn lemma_clause_len_bound(text: Seq<char>, pos: int)
    requires
        0 <= pos <= text.len(),
    ensures
        pos + clause_len(text, pos) <= text.len(),
{
    if has_clause(text, pos) {
        lemma_find_from_bounds(text, pos + 1, ']');
    }
}

/// A word of an option clause changes values only: letters and kinds stay.
proof fn lemma_updated_params_shape(opts: Seq<FormatOptionParam>, tag: Seq<char>)
    ensures
        same_shape(opts, updated_params(opts, tag)),
{
}

/// The words of an option clause change values only: letters and kinds stay.
proof fn lemma_after_words_shape(opts: Seq<FormatOptionParam>, body: Seq<char>)
    ensures
        same_shape(opts, after_words(opts, body)),
    decreases body.len(),
{
    if body.len() == 0 {
    } else if body[0] == ' ' {
        lemma_after_words_shape(opts, body.skip(1));
    } else {
        let n = find_from(body, 1, ' ');
        if 1 <= n <= body.len() {
            lemma_updated_params_shape(opts, body.take(n));
            lemma_after_words_shape(updated_params(opts, body.take(n)), body.skip(n));
        }
    }
}

/// Reads the option clause at `pos` in `text`, where one starts there, into the table `opts`,
/// and returns the place after it.
pub fn parsefmtoptparams(opts: &mut Vec<FormatOptionParam>, text: &Vec<char>, pos: usize) -> (next:
    usize)
    requires
        pos <= text.len(),
    ensures
        final(opts)@ == after_clause(old(opts)@, text@, pos as int),
        same_shape(old(opts)@, final(opts)@),
        next == pos + clause_len(text@, pos as int),
        next <= text.len(),
{
    if pos >= text.len() || text[pos] != '[' {
        return pos;
    }
    let close = find_char(text, pos + 1, ']');
    let ghost body = text@.subrange(pos + 1, close as int);
    let mut i: usize = pos + 1;
    proof {
        assert(body.skip(0) == body);
        lemma_after_words_shape(old(opts)@, body);
    }
    while i < close
        invariant
            pos + 1 <= i <= close <= text.len(),
            body == text@.subrange(pos + 1, close as int),
            after_words(old(opts)@, body) == after_words(opts@, body.skip(i - (pos + 1))),
            same_shape(old(opts)@, opts@),
        decreases close - i,
    {
        let ghost rest = body.skip(i - (pos + 1));
        assert(rest[0] == text@[i as int]);
        if text[i] == ' ' {
            assert(rest.skip(1) == body.skip(i + 1 - (pos + 1)));
            i += 1;
        } else {
            let mut word: Vec<char> = Vec::new();
            let mut j: usize = i;
            while j < close && text[j] != ' '
                invariant
                    i <= j <= close <= text.len(),
                    i < close,
                    rest == body.skip(i - (pos + 1)),
                    body == text@.subrange(pos + 1, close as int),
                    pos + 1 <= i,
                    word@ == rest.take(j - i),
                    j > i ==> find_from(rest, 1, ' ') == find_from(rest, j - i, ' '),
                    text@[i as int] != ' ',
                decreases close - j,
            {
                word.push(text[j]);
                assert(rest[j - i] == text@[j as int]);
                assert(rest.take(j + 1 - i) == rest.take(j - i).push(text@[j as int]));
                j += 1;
            }
            proof {
                assert(j > i);
                if j < close {
                    assert(rest[j - i] == text@[j as int]);
                }
                assert(find_from(rest, 1, ' ') == j - i);
                assert(rest.skip(j - i) == body.skip(j - (pos + 1)));
            }
            let ghost before = opts@;
            setfmtoptparam(opts, &word);
            proof {
                lemma_updated_params_shape(before, word@);
            }
            i = j;
        }
    }
    assert(body.skip(close - (pos + 1)) == Seq::<char>::empty());
    if close < text.len() {
        close + 1
    } else {
        close
    }
}

/// The options of an integer sample before any clause is read: divisor `d` one, modulus `r`
/// zero, zero padding `z` zero.
pub open spec fn int_table() -> Seq<FormatOptionParam> {
    seq![
        FormatOptionParam { id: 'd', val: FormatOptionParamVal::TypeInt64(1) },
        FormatOptionParam { id: 'r', val: FormatOptionParamVal::TypeInt64(0) },
        FormatOptionParam { id: 'z', val: FormatOptionParamVal::TypeUsize(0) },
    ]
}

/// The options of a decimal sample before any clause is read: divisor `d` one, decimals `p`
/// zero, zero padding `z` zero.
pub open spec fn decimal_table() -> Seq<FormatOptionParam> {
    seq![
        FormatOptionParam { id: 'd', val: FormatOptionParamVal::TypeFloat64(Decimal::of(1, 0)) },
        FormatOptionParam { id: 'p', val: FormatOptionParamVal::TypeUsize(0) },
        FormatOptionParam { id: 'z', val: FormatOptionParamVal::TypeUsize(0) },
    ]
}

/// The option table `table` after the sampler's own clause `defaults`, where it has one, and
/// then the clause at `pos` in the template `text`, where one starts there.
pub open spec fn sample_options(
    table: Seq<FormatOptionParam>,
    defaults: Option<Seq<char>>,
    text: Seq<char>,
    pos: int,
) -> Seq<FormatOptionParam> {
    let own = match defaults {
        Some(clause) => after_clause(table, clause, 0),
        None => table,
    };
    after_clause(own, text, pos)
}

/// What stands for a sample that has no data.
pub open spec fn unknown_marker() -> Seq<char> {
    seq!['?']
}

/// The text of an integer sample whose token is followed by `text` from `pos` on.
pub open spec fn int_sample_text(
    val: Option<i64>,
    defaults: Option<Seq<char>>,
    text: Seq<char>,
    pos: int,
) -> Seq<char> {
    let opts = sample_options(int_table(), defaults, text, pos);
    match val {
        Some(n) => int_text(
            n as int,
            opts[0].val->TypeInt64_0 as int,
            opts[1].val->TypeInt64_0 as int,
            opts[2].val->TypeUsize_0 as nat,
        ),
        None => unknown_marker(),
    }
}

/// The text of a decimal sample whose token is followed by `text` from `pos` on.
pub open spec fn decimal_sample_text(
    val: Option<Decimal>,
    defaults: Option<Seq<char>>,
    text: Seq<char>,
    pos: int,
) -> Seq<char> {
    let opts = sample_options(decimal_table(), defaults, text, pos);
    match val {
        Some(x) => decimal_text(
            x,
            opts[0].val->TypeFloat64_0,
            opts[1].val->TypeUsize_0 as nat,
            opts[2].val->TypeUsize_0 as nat,
        ),
        None => unknown_marker(),
    }
}

/// The text that the sample `sample` puts in place of its token, which `text` follows from `pos`
/// on.
pub open spec fn sample_text(sample: Sample, text: Seq<char>, pos: int) -> Seq<char> {
    match sample {
        Sample::Text(Some(t)) => t,
        Sample::Text(None) => unknown_marker(),
        Sample::Decimal { val, defaults } => decimal_sample_text(val, defaults, text, pos),
        Sample::Int { val, defaults } => int_sample_text(val, defaults, text, pos),
    }
}

/// How many characters after its token the sample `sample` takes from the template: a numeric
/// sample takes the option clause, a text sample nothing.
pub open spec fn sample_len(sample: Sample, text: Seq<char>, pos: int) -> nat {
    match sample {
        Sample::Text(_) => 0,
        _ => clause_len(text, pos),
    }
}

/// Reads the sampler's own clause and then the template's clause at `pos` into `opts`, and
/// returns the place after the template's clause.
fn read_sample_options(
    opts: &mut Vec<FormatOptionParam>,
    defaultfmt: &Option<String>,
    text: &Vec<char>,
    pos: usize,
) -> (next: usize)
    requires
        pos <= text.len(),
    ensures
        final(opts)@ == sample_options(old(opts)@, opt_text(*defaultfmt), text@, pos as int),
        same_shape(old(opts)@, final(opts)@),
        next == pos + clause_len(text@, pos as int),
        next <= text.len(),
{
    if let Some(fmt) = defaultfmt {
        let own = chars_of(fmt.as_str());
        parsefmtoptparams(opts, &own, 0);
    }
    parsefmtoptparams(opts, text, pos)
}

/// The value of an integer option.
fn int_param(opts: &Vec<FormatOptionParam>, i: usize) -> (n: i64)
    requires
        i < opts.len(),
        opts@[i as int].val is TypeInt64,
    ensures
        n == opts@[i as int].val->TypeInt64_0,
{
    match opts[i].val {
        FormatOptionParamVal::TypeInt64(n) => n,
        _ => vstd::pervasive::unreached(),
    }
}

/// The value of a count option.
fn usize_param(opts: &Vec<FormatOptionParam>, i: usize) -> (n: usize)
    requires
        i < opts.len(),
        opts@[i as int].val is TypeUsize,
    ensures
        n == opts@[i as int].val->TypeUsize_0,
{
    match opts[i].val {
        FormatOptionParamVal::TypeUsize(n) => n,
        _ => vstd::pervasive::unreached(),
    }
}

/// The value of a decimal option.
fn decimal_param(opts: &Vec<FormatOptionParam>, i: usize) -> (d: Decimal)
    requires
        i < opts.len(),
        opts@[i as int].val is TypeFloat64,
    ensures
        d == opts@[i as int].val->TypeFloat64_0,
{
    match opts[i].val {
        FormatOptionParamVal::TypeFloat64(d) => d,
        _ => vstd::pervasive::unreached(),
    }
}

/// The marker for a sample without data.
fn unknown_text() -> (r: Vec<char>)
    ensures
        r@ == unknown_marker(),
{
    let mut r: Vec<char> = Vec::new();
    r.push('?');
    r
}

/// Formats the decimal sample `val`, whose token the template `text` follows from `pos` on:
/// the text that stands for it, and the place after its option clause.
pub fn parsefmtf64(text: &Vec<char>, pos: usize, val: &FmtGenFloat64) -> (r: (Vec<char>, usize))
    requires
        pos <= text.len(),
    ensures
        r.0@ == decimal_sample_text(val.val, opt_text(val.defaultfmt), text@, pos as int),
        r.1 == pos + clause_len(text@, pos as int),
        r.1 <= text.len(),
{
    let mut opts: Vec<FormatOptionParam> = Vec::new();
    opts.push(
        FormatOptionParam { id: 'd', val: FormatOptionParamVal::TypeFloat64(Decimal::from_int(1)) },
    );
    opts.push(FormatOptionParam { id: 'p', val: FormatOptionParamVal::TypeUsize(0) });
    opts.push(FormatOptionParam { id: 'z', val: FormatOptionParamVal::TypeUsize(0) });
    assert(opts@ == decimal_table());
    let next = read_sample_options(&mut opts, &val.defaultfmt, text, pos);
    let divisor = decimal_param(&opts, 0);
    let decimals = usize_param(&opts, 1);
    let zeropad = usize_param(&opts, 2);
    let out = match val.val {
        Some(x) => format_decimal(x, divisor, decimals, zeropad),
        None => unknown_text(),
    };
    (out, next)
}

/// Formats the integer sample `val`, whose token the template `text` follows from `pos` on:
/// the text that stands for it, and the place after its option clause.
pub fn parsefmti64(text: &Vec<char>, pos: usize, val: &FmtGenInt64) -> (r: (Vec<char>, usize))
    requires
        pos <= text.len(),
    ensures
        r.0@ == int_sample_text(val.val, opt_text(val.defaultfmt), text@, pos as int),
        r.1 == pos + clause_len(text@, pos as int),
        r.1 <= text.len(),
{
    let mut opts: Vec<FormatOptionParam> = Vec::new();
    opts.push(FormatOptionParam { id: 'd', val: FormatOptionParamVal::TypeInt64(1) });
    opts.push(FormatOptionParam { id: 'r', val: FormatOptionParamVal::TypeInt64(0) });
    opts.push(FormatOptionParam { id: 'z', val: FormatOptionParamVal::TypeUsize(0) });
    assert(opts@ == int_table());
    let next = read_sample_options(&mut opts, &val.defaultfmt, text, pos);
    let divisor = int_param(&opts, 0);
    let modulus = int_param(&opts, 1);
    let zeropad = usize_param(&opts, 2);
    let out = match val.val {
        Some(n) => format_int(n, divisor, modulus, zeropad),
        None => unknown_text(),
    };
    (out, next)
}

/// Formats the sample `val`, whose token the template `text` follows from `pos` on: the text
/// that stands for it, and the place in the template where plain text goes on.
pub fn parsefmtval(text: &Vec<char>, pos: usize, val: &FormatGenerator) -> (r: (Vec<char>, usize))
    requires
        pos <= text.len(),
    ensures
        r.0@ == sample_text(val@, text@, pos as int),
        r.1 == pos + sample_len(val@, text@, pos as int),
        r.1 <= text.len(),
{
    match val {
        FormatGenerator::OutputString(g) => match &g.val {
            Some(s) => (chars_of(s.as_str()), pos),
            None => (unknown_text(), pos),
        },
        FormatGenerator::OutputFloat64(g) => parsefmtf64(text, pos, g),
        FormatGenerator::OutputInt64(g) => parsefmti64(text, pos, g),
    }
}

/// What a resolver says of one token: a failure, no sampler for the token, or a sample.
pub type Answer = Result<Option<Sample>, Seq<char>>;

/// A resolver's answer as a plain value.
pub open spec fn answer_view(r: Result<Option<FormatGenerator>, String>) -> Answer {
    match r {
        Ok(Some(g)) => Ok(Some(g@)),
        Ok(None) => Ok(None),
        Err(e) => Err(e@),
    }
}

/// What `format` returns, as a plain value.
pub open spec fn output_view(r: Result<Option<String>, String>) -> Result<Option<Seq<char>>, Seq<char>> {
    match r {
        Ok(Some(s)) => Ok(Some(s@)),
        Ok(None) => Ok(None),
        Err(e) => Err(e@),
    }
}

/// `head` put before what `tail` renders; a failure stays the failure.
pub open spec fn prepend(head: Seq<char>, tail: Result<Seq<char>, Seq<char>>) -> Result<
    Seq<char>,
    Seq<char>,
> {
    match tail {
        Ok(t) => Ok(head + t),
        Err(e) => Err(e),
    }
}

/// A character of the template that stands for itself.
pub open spec fn plain(c: char) -> Seq<char> {
    seq![c]
}

/// What stands for the token `tag` where the resolver has no sampler for it: the `%` and the
/// token, as the template has them.
pub open spec fn unresolved(tag: char) -> Seq<char> {
    seq!['%', tag]
}

/// What the template `text` renders to from `pos` on, under the resolver `resolve`.
///
/// A character other than `%` stands for itself. A `%` makes the next character a token: where
/// the resolver has no sampler for it, both characters stand for themselves (so `%%` stays
/// `%%`); where it has one, the sample's text takes the place of the token and of the option
/// clause that a numeric sample reads after it; where it fails, rendering fails with the same
/// message. A `%` that ends the template is dropped.
pub open spec fn render_from(text: Seq<char>, pos: int, resolve: spec_fn(char) -> Answer) -> Result<
    Seq<char>,
    Seq<char>,
>
    decreases text.len() - pos,
{
    if pos < 0 || pos >= text.len() {
        Ok(Seq::empty())
    } else if text[pos] != '%' {
        prepend(plain(text[pos]), render_from(text, pos + 1, resolve))
    } else if pos + 1 >= text.len() {
        Ok(Seq::empty())
    } else {
        match resolve(text[pos + 1]) {
            Err(e) => Err(e),
            Ok(None) => prepend(unresolved(text[pos + 1]), render_from(text, pos + 2, resolve)),
            Ok(Some(sample)) => {
                let taken = sample_len(sample, text, pos + 2);
                proof {
                    lemma_clause_len_bound(text, pos + 2);
                }
                prepend(
                    sample_text(sample, text, pos + 2),
                    render_from(text, pos + 2 + taken, resolve),
                )
            },
        }
    }
}

/// What the template `text` renders to under the resolver `resolve`.
pub open spec fn render(text: Seq<char>, resolve: spec_fn(char) -> Answer) -> Result<
    Option<Seq<char>>,
    Seq<char>,
> {
    match render_from(text, 0, resolve) {
        Ok(out) => Ok(Some(out)),
        Err(e) => Err(e),
    }
}

/// Whether the executable resolver `f` answers every token as `resolve` says.
pub open spec fn answers_as<F: Fn(char) -> Result<Option<FormatGenerator>, String>>(
    f: F,
    resolve: spec_fn(char) -> Answer,
) -> bool {
    forall|c: char, r: Result<Option<FormatGenerator>, String>| #[trigger]
        call_ensures(f, (c,), r) ==> answer_view(r) == resolve(c)
}

/// A template without `%` renders to itself, whatever the resolver.
pub proof fn lemma_render_plain(text: Seq<char>, resolve: spec_fn(char) -> Answer)
    requires
        !text.contains('%'),
    ensures
        render(text, resolve) == Ok::<Option<Seq<char>>, Seq<char>>(Some(text)),
{
    lemma_render_plain_from(text, 0, resolve);
    assert(text.skip(0) == text);
}

/// From any place on, a template without `%` renders to what is left of it.
proof fn lemma_render_plain_from(text: Seq<char>, pos: int, resolve: spec_fn(char) -> Answer)
    requires
        !text.contains('%'),
        0 <= pos <= text.len(),
    ensures
        render_from(text, pos, resolve) == Ok::<Seq<char>, Seq<char>>(text.skip(pos)),
    decreases text.len() - pos,
{
    if pos < text.len() {
        assert(text.contains(text[pos]));
        lemma_render_plain_from(text, pos + 1, resolve);
        assert(plain(text[pos]) + text.skip(pos + 1) == text.skip(pos));
    } else {
        assert(text.skip(pos) == Seq::<char>::empty());
    }
}

/// Under a resolver that never fails, rendering does not fail.
pub proof fn lemma_render_answers(text: Seq<char>, resolve: spec_fn(char) -> Answer)
    requires
        forall|c: char| (#[trigger] resolve(c)) is Ok,
    ensures
        render(text, resolve) is Ok,
{
    lemma_render_answers_from(text, 0, resolve);
}

/// Under a resolver that never fails, rendering does not fail from any place on.
proof fn lemma_render_answers_from(text: Seq<char>, pos: int, resolve: spec_fn(char) -> Answer)
    requires
        forall|c: char| (#[trigger] resolve(c)) is Ok,
        0 <= pos,
    ensures
        render_from(text, pos, resolve) is Ok,
    decreases text.len() - pos,
{
    if pos >= text.len() {
    } else if text[pos] != '%' {
        lemma_render_answers_from(text, pos + 1, resolve);
    } else if pos + 1 >= text.len() {
    } else {
        assert(resolve(text[pos + 1]) is Ok);
        match resolve(text[pos + 1]) {
            Err(e) => {},
            Ok(None) => {
                lemma_render_answers_from(text, pos + 2, resolve);
            },
            Ok(Some(sample)) => {
                lemma_clause_len_bound(text, pos + 2);
                lemma_render_answers_from(
                    text,
                    pos + 2 + sample_len(sample, text, pos + 2),
                    resolve,
                );
            },
        }
    }
}

/// What `format` returns, without the `Some` around the text.
pub open spec fn rendered(r: Result<Option<String>, String>) -> Result<Seq<char>, Seq<char>> {
    match r {
        Ok(Some(s)) => Ok(s@),
        Ok(None) => Ok(Seq::empty()),
        Err(e) => Err(e@),
    }
}

/// Whether rendering the template `text` from `pos` on can give `out` where the executable
/// resolver `f` is asked for the sample of each token: `out` is what `render_from` describes,
/// with, for each token in turn, one of the answers that `f` can give in place of the
/// resolver's.
pub open spec fn can_render<F: Fn(char) -> Result<Option<FormatGenerator>, String>>(
    f: F,
    text: Seq<char>,
    pos: int,
    out: Result<Seq<char>, Seq<char>>,
) -> bool
    decreases text.len() - pos,
{
    if pos < 0 || pos >= text.len() {
        out == Ok::<Seq<char>, Seq<char>>(Seq::empty())
    } else if text[pos] != '%' {
        exists|tail: Result<Seq<char>, Seq<char>>|
            #![trigger prepend(plain(text[pos]), tail)]
            can_render(f, text, pos + 1, tail) && out == prepend(plain(text[pos]), tail)
    } else if pos + 1 >= text.len() {
        out == Ok::<Seq<char>, Seq<char>>(Seq::empty())
    } else {
        exists|r: Result<Option<FormatGenerator>, String>|
            #![trigger call_ensures(f, (text[pos + 1],), r)]
            call_ensures(f, (text[pos + 1],), r) && match answer_view(r) {
                Err(e) => out == Err::<Seq<char>, Seq<char>>(e),
                Ok(None) => exists|tail: Result<Seq<char>, Seq<char>>|
                    #![trigger prepend(unresolved(text[pos + 1]), tail)]
                    can_render(f, text, pos + 2, tail) && out == prepend(unresolved(text[pos + 1]), tail),
                Ok(Some(sample)) => pos + 2 + sample_len(sample, text, pos + 2) <= text.len()
                    && exists|tail: Result<Seq<char>, Seq<char>>|
                    #![trigger prepend(sample_text(sample, text, pos + 2), tail)]
                    can_render(f, text, pos + 2 + sample_len(sample, text, pos + 2), tail) && out
                        == prepend(sample_text(sample, text, pos + 2), tail),
            }
    }
}

/// Where the executable resolver `f` answers every token as `resolve` says, rendering can
/// give nothing but what `render_from` says.
pub proof fn lemma_render_determined<F: Fn(char) -> Result<Option<FormatGenerator>, String>>(
    f: F,
    resolve: spec_fn(char) -> Answer,
    text: Seq<char>,
    pos: int,
    out: Result<Seq<char>, Seq<char>>,
)
    requires
        answers_as(f, resolve),
        can_render(f, text, pos, out),
    ensures
        out == render_from(text, pos, resolve),
    decreases text.len() - pos,
{
    if pos < 0 || pos >= text.len() {
    } else if text[pos] != '%' {
        let tail = choose|tail: Result<Seq<char>, Seq<char>>|
            #![trigger prepend(plain(text[pos]), tail)]
            can_render(f, text, pos + 1, tail) && out == prepend(plain(text[pos]), tail);
        lemma_render_determined(f, resolve, text, pos + 1, tail);
    } else if pos + 1 >= text.len() {
    } else {
        let r = choose|r: Result<Option<FormatGenerator>, String>|
            #![trigger call_ensures(f, (text[pos + 1],), r)]
            call_ensures(f, (text[pos + 1],), r) && match answer_view(r) {
                Err(e) => out == Err::<Seq<char>, Seq<char>>(e),
                Ok(None) => exists|tail: Result<Seq<char>, Seq<char>>|
                    #![trigger prepend(unresolved(text[pos + 1]), tail)]
                    can_render(f, text, pos + 2, tail) && out == prepend(unresolved(text[pos + 1]), tail),
                Ok(Some(sample)) => pos + 2 + sample_len(sample, text, pos + 2) <= text.len()
                    && exists|tail: Result<Seq<char>, Seq<char>>|
                    #![trigger prepend(sample_text(sample, text, pos + 2), tail)]
                    can_render(f, text, pos + 2 + sample_len(sample, text, pos + 2), tail) && out
                        == prepend(sample_text(sample, text, pos + 2), tail),
            };
        assert(answer_view(r) == resolve(text[pos + 1]));
        match answer_view(r) {
            Err(e) => {},
            Ok(None) => {
                let tail = choose|tail: Result<Seq<char>, Seq<char>>|
                    #![trigger prepend(unresolved(text[pos + 1]), tail)]
                    can_render(f, text, pos + 2, tail) && out == prepend(unresolved(text[pos + 1]), tail);
                lemma_render_determined(f, resolve, text, pos + 2, tail);
            },
            Ok(Some(sample)) => {
                let tail = choose|tail: Result<Seq<char>, Seq<char>>|
                    #![trigger prepend(sample_text(sample, text, pos + 2), tail)]
                    can_render(f, text, pos + 2 + sample_len(sample, text, pos + 2), tail) && out
                        == prepend(sample_text(sample, text, pos + 2), tail);
                lemma_render_determined(
                    f,
                    resolve,
                    text,
                    pos + 2 + sample_len(sample, text, pos + 2),
                    tail,
                );
            },
        }
    }
}

/// Renders the template `fmt`, asking `f` for the sample of each token.
///
/// The result is what `render_from` describes, with the answers that `f` gave in place of a
/// resolver's; rendering fails where `f` fails, and gives a text else. Where `f` answers every
/// token as some `resolve` says, the result is `render(fmt@, resolve)`. A template without `%`
/// comes back unchanged whatever `f` is.
pub fn format<F>(fmt: &str, f: F) -> (out: Result<Option<String>, String>) where
    F: Fn(char) -> Result<Option<FormatGenerator>, String>,

    requires
        forall|c: char| call_requires(f, (c,)),
    ensures
        can_render(f, fmt@, 0, rendered(out)),
        out matches Ok(text) ==> text is Some,
        forall|resolve: spec_fn(char) -> Answer| #[trigger]
            answers_as(f, resolve) ==> output_view(out) == render(fmt@, resolve),
        !fmt@.contains('%') ==> output_view(out) == Ok::<Option<Seq<char>>, Seq<char>>(
            Some(fmt@),
        ),
{
    let text = chars_of(fmt);
    let mut out: Vec<char> = Vec::new();
    let mut pos: usize = 0;
    proof {
        assert forall|tail: Result<Seq<char>, Seq<char>>|
            #![trigger can_render(f, text@, 0, tail)]
            can_render(f, text@, 0, tail) implies can_render(f, text@, 0, prepend(out@, tail)) by {
            lemma_prepend_nothing(tail);
        }
    }
    while pos < text.len()
        invariant
            pos <= text.len(),
            text@ == fmt@,
            forall|c: char| call_requires(f, (c,)),
            forall|tail: Result<Seq<char>, Seq<char>>|
                #![trigger can_render(f, text@, pos as int, tail)]
                can_render(f, text@, pos as int, tail) ==> can_render(
                    f,
                    text@,
                    0,
                    prepend(out@, tail),
                ),
            !text@.contains('%') ==> out@ == text@.take(pos as int),
        decreases text.len() - pos,
    {
        let c = text[pos];
        let ghost before = out@;
        let ghost start = pos as int;
        if c == '%' {
            assert(text@.contains('%'));
            if pos + 1 >= text.len() {
                pos = text.len();
                assert forall|tail: Result<Seq<char>, Seq<char>>|
                    #![trigger can_render(f, text@, pos as int, tail)]
                    can_render(f, text@, pos as int, tail) implies can_render(
                    f,
                    text@,
                    0,
                    prepend(out@, tail),
                ) by {
                    assert(can_render(f, text@, start, tail));
                }
            } else {
                let tag = text[pos + 1];
                let answer = f(tag);
                match answer {
                    Err(e) => {
                        proof {
                            let failed = Err::<Seq<char>, Seq<char>>(e@);
                            assert(can_render(f, text@, start, failed));
                            assert(prepend(out@, failed) == failed);
                        }
                        let failure = Err(e);
                        proof {
                            lemma_format_determined(f, fmt@, failure);
                        }
                        return failure;
                    },
                    Ok(None) => {
                        out.push('%');
                        out.push(tag);
                        assert forall|tail: Result<Seq<char>, Seq<char>>|
                            #![trigger can_render(f, text@, start + 2, tail)]
                            can_render(f, text@, start + 2, tail) implies can_render(
                            f,
                            text@,
                            0,
                            prepend(out@, tail),
                        ) by {
                            assert(can_render(f, text@, start, prepend(unresolved(tag), tail)));
                            assert(out@ == before + unresolved(tag));
                            lemma_prepend_twice(before, unresolved(tag), tail);
                        }
                        pos = pos + 2;
                    },
                    Ok(Some(val)) => {
                        let (piece, next) = parsefmtval(&text, pos + 2, &val);
                        append_chars(&mut out, &piece);
                        assert forall|tail: Result<Seq<char>, Seq<char>>|
                            #![trigger can_render(f, text@, next as int, tail)]
                            can_render(f, text@, next as int, tail) implies can_render(
                            f,
                            text@,
                            0,
                            prepend(out@, tail),
                        ) by {
                            assert(can_render(f, text@, start, prepend(piece@, tail)));
                            lemma_prepend_twice(before, piece@, tail);
                        }
                        pos = next;
                    },
                }
            }
        } else {
            out.push(c);
            assert forall|tail: Result<Seq<char>, Seq<char>>|
                #![trigger can_render(f, text@, start + 1, tail)]
                can_render(f, text@, start + 1, tail) implies can_render(
                f,
                text@,
                0,
                prepend(out@, tail),
            ) by {
                assert(can_render(f, text@, start, prepend(plain(c), tail)));
                assert(out@ == before + plain(c));
                lemma_prepend_twice(before, plain(c), tail);
            }
            assert(text@.take(pos + 1) == text@.take(pos as int).push(c));
            pos = pos + 1;
        }
    }
    let result = Ok(Some(string_of(&out)));
    proof {
        let done = Ok::<Seq<char>, Seq<char>>(Seq::empty());
        assert(can_render(f, text@, pos as int, done));
        assert(out@ + Seq::<char>::empty() == out@);
        assert(prepend(out@, done) == rendered(result));
        assert(text@.take(text@.len() as int) == text@);
        lemma_format_determined(f, fmt@, result);
    }
    result
}

/// What rendering gives under an executable resolver that answers as some `resolve` says.
proof fn lemma_format_determined<F: Fn(char) -> Result<Option<FormatGenerator>, String>>(
    f: F,
    text: Seq<char>,
    out: Result<Option<String>, String>,
)
    requires
        can_render(f, text, 0, rendered(out)),
        out matches Ok(made) ==> made is Some,
    ensures
        forall|resolve: spec_fn(char) -> Answer| #[trigger]
            answers_as(f, resolve) ==> output_view(out) == render(text, resolve),
{
    assert forall|resolve: spec_fn(char) -> Answer| #[trigger]
        answers_as(f, resolve) implies output_view(out) == render(text, resolve) by {
        lemma_render_determined(f, resolve, text, 0, rendered(out));
    }
}

/// Nothing put before a rendering leaves the rendering as it is.
proof fn lemma_prepend_nothing(tail: Result<Seq<char>, Seq<char>>)
    ensures
        prepend(Seq::empty(), tail) == tail,
{
    match tail {
        Ok(t) => {
            assert(Seq::<char>::empty() + t == t);
        },
        Err(_) => {},
    }
}

/// To put `b` and then `a` before a rendering is to put `a + b` before it.
proof fn lemma_prepend_twice(a: Seq<char>, b: Seq<char>, tail: Result<Seq<char>, Seq<char>>)
    ensures
        prepend(a, prepend(b, tail)) == prepend(a + b, tail),
{
    match tail {
        Ok(t) => {
            assert(a + (b + t) == (a + b) + t);
        },
        Err(_) => {},
    }
}

/// The answer of a resolver whose sampler gave the text `val`: the failure, where it failed,
/// else a text sample, without data where it had none.
pub fn fmtopt_string(val: Result<Option<String>, String>) -> (r: Result<
    Option<FormatGenerator>,
    String,
>)
    ensures
        answer_view(r) == match val {
            Ok(text) => Ok(Some(Sample::Text(opt_text(text)))),
            Err(e) => Err(e@),
        },
{
    match val {
        Ok(text) => Ok(Some(FormatGenerator::OutputString(FmtGenString { val: text }))),
        Err(e) => Err(e),
    }
}

/// The answer of a resolver whose sampler gave the integer `val` and asks for the option
/// clause `defaultfmt`: the failure, where it failed, else an integer sample, without data
/// where it had none.
pub fn fmtopt_i64(val: Result<Option<i64>, String>, defaultfmt: Option<&str>) -> (r: Result<
    Option<FormatGenerator>,
    String,
>)
    ensures
        answer_view(r) == match val {
            Ok(n) => Ok(Some(Sample::Int { val: n, defaults: opt_str_text(defaultfmt) })),
            Err(e) => Err(e@),
        },
{
    match val {
        Ok(n) => Ok(
            Some(
                FormatGenerator::OutputInt64(
                    FmtGenInt64 {
                        val: n,
                        defaultfmt: match defaultfmt {
                            Some(clause) => Some(clause.to_owned()),
                            None => None,
                        },
                    },
                ),
            ),
        ),
        Err(e) => Err(e),
    }
}

/// The answer of a resolver whose sampler gave the decimal `val` and asks for the option
/// clause `defaultfmt`: the failure, where it failed, else a decimal sample, without data
/// where it had none.
pub fn fmtopt_f64(val: Result<Option<Decimal>, String>, defaultfmt: Option<&str>) -> (r: Result<
    Option<FormatGenerator>,
    String,
>)
    ensures
        answer_view(r) == match val {
            Ok(x) => Ok(Some(Sample::Decimal { val: x, defaults: opt_str_text(defaultfmt) })),
            Err(e) => Err(e@),
        },
{
    match val {
        Ok(x) => Ok(
            Some(
                FormatGenerator::OutputFloat64(
                    FmtGenFloat64 {
                        val: x,
                        defaultfmt: match defaultfmt {
                            Some(clause) => Some(clause.to_owned()),
                            None => None,
                        },
                    },
                ),
            ),
        ),
        Err(e) => Err(e),
    }
}

} // verus!
