use vstd::prelude::*;

verus! {

/// The characters of `s`, in order.
pub fn chars_of(s: &str) -> (v: Vec<char>)
    ensures
        v@ == s@,
{
    let mut v: Vec<char> = Vec::new();
    for c in it: s.chars()
        invariant
            v@ == it.seq().take(it.index() as int),
            it.seq() == s@,
    {
        v.push(c);
    }
    v
}

/// Appends `c` to `s` through `String::push`, which adds the given character to the end of the
/// string.
#[verifier::external_body]
pub(crate) fn push_char(s: &mut String, c: char)
    ensures
        final(s)@ == old(s)@.push(c),
{
    s.push(c);
}

/// The string that holds the characters of `v`, in order.
pub fn string_of(v: &Vec<char>) -> (s: String)
    ensures
        s@ == v@,
{
    let mut s = String::new();
    let mut i: usize = 0;
    while i < v.len()
        invariant
            i <= v.len(),
            s@ == v@.take(i as int),
        decreases v.len() - i,
    {
        push_char(&mut s, v[i]);
        i += 1;
    }
    assert(v@.take(v.len() as int) == v@);
    s
}

/// Whether two character sequences are the same.
pub fn same_chars(a: &Vec<char>, b: &Vec<char>) -> (r: bool)
    ensures
        r == (a@ == b@),
{
    if a.len() != b.len() {
        return false;
    }
    let mut i: usize = 0;
    while i < a.len()
        invariant
            i <= a.len(),
            a.len() == b.len(),
            a@.take(i as int) == b@.take(i as int),
        decreases a.len() - i,
    {
        if a[i] != b[i] {
            return false;
        }
        assert(a@.take(i + 1) == a@.take(i as int).push(a@[i as int]));
        assert(b@.take(i + 1) == b@.take(i as int).push(b@[i as int]));
        i += 1;
    }
    assert(a@.take(a.len() as int) == a@);
    assert(b@.take(b.len() as int) == b@);
    true
}

/// Whether two strings hold the same characters.
pub fn same_text(a: &str, b: &str) -> (r: bool)
    ensures
        r == (a@ == b@),
{
    let x = chars_of(a);
    let y = chars_of(b);
    same_chars(&x, &y)
}

/// Appends the characters of `tail` to `out`.
pub fn append_chars(out: &mut Vec<char>, tail: &Vec<char>)
    ensures
        final(out)@ == old(out)@ + tail@,
{
    let mut i: usize = 0;
    while i < tail.len()
        invariant
            i <= tail.len(),
            out@ == old(out)@ + tail@.take(i as int),
        decreases tail.len() - i,
    {
        out.push(tail[i]);
        assert(tail@.take(i + 1) == tail@.take(i as int).push(tail@[i as int]));
        i += 1;
    }
    assert(tail@.take(tail.len() as int) == tail@);
}

/// Whether `c` is white space, as Unicode lists it.
pub open spec fn is_space(c: char) -> bool {
    let n = c as u32;
    ||| 0x09 <= n <= 0x0d
    ||| n == 0x20
    ||| n == 0x85
    ||| n == 0xa0
    ||| n == 0x1680
    ||| 0x2000 <= n <= 0x200a
    ||| n == 0x2028
    ||| n == 0x2029
    ||| n == 0x202f
    ||| n == 0x205f
    ||| n == 0x3000
}

/// Whether `c` is white space.
pub fn char_is_space(c: char) -> (r: bool)
    ensures
        r == is_space(c),
{
    let n = c as u32;
    (0x09 <= n && n <= 0x0d) || n == 0x20 || n == 0x85 || n == 0xa0 || n == 0x1680 || (0x2000 <= n
        && n <= 0x200a) || n == 0x2028 || n == 0x2029 || n == 0x202f || n == 0x205f || n == 0x3000
}

/// How many characters of `s` from `from` on are of the kind `space` (white space or not)
/// before one of the other kind comes.
pub open spec fn run_len(s: Seq<char>, from: int, space: bool) -> nat
    decreases s.len() - from,
{
    if from < 0 || from >= s.len() || is_space(s[from]) != space {
        0
    } else {
        1 + run_len(s, from + 1, space)
    }
}

/// The words of `s` from `from` on: the longest runs of characters that are not white space.
pub open spec fn words_from(s: Seq<char>, from: int) -> Seq<Seq<char>>
    decreases s.len() - from,
{
    if from < 0 || from >= s.len() {
        Seq::empty()
    } else if is_space(s[from]) {
        words_from(s, from + 1)
    } else {
        let n = run_len(s, from, false);
        if from + n <= s.len() {
            seq![s.subrange(from, from + n)] + words_from(s, from + n)
        } else {
            Seq::empty()
        }
    }
}

/// The words of `s`.
pub open spec fn words(s: Seq<char>) -> Seq<Seq<char>> {
    words_from(s, 0)
}

/// Where the run of the kind `space` that starts at `from` ends.
pub fn run_end(v: &Vec<char>, from: usize, space: bool) -> (end: usize)
    requires
        from <= v.len(),
    ensures
        end == from + run_len(v@, from as int, space),
        end <= v.len(),
        end < v.len() ==> is_space(v@[end as int]) != space,
{
    let mut i: usize = from;
    while i < v.len() && char_is_space(v[i]) == space
        invariant
            from <= i <= v.len(),
            from + run_len(v@, from as int, space) == i + run_len(v@, i as int, space),
        decreases v.len() - i,
    {
        i += 1;
    }
    i
}

/// The characters of `v` from `from` up to `to`.
pub fn slice_of(v: &Vec<char>, from: usize, to: usize) -> (r: Vec<char>)
    requires
        from <= to <= v.len(),
    ensures
        r@ == v@.subrange(from as int, to as int),
{
    let mut r: Vec<char> = Vec::new();
    let mut i: usize = from;
    while i < to
        invariant
            from <= i <= to <= v.len(),
            r@ == v@.subrange(from as int, i as int),
        decreases to - i,
    {
        r.push(v[i]);
        assert(v@.subrange(from as int, i + 1) == v@.subrange(from as int, i as int).push(
            v@[i as int],
        ));
        i += 1;
    }
    r
}

/// The words of `v`, in order.
pub fn split_words(v: &Vec<char>) -> (r: Vec<Vec<char>>)
    ensures
        r@.len() == words(v@).len(),
        forall|k: int| 0 <= k < r@.len() ==> (#[trigger] r@[k])@ == words(v@)[k],
{
    let mut r: Vec<Vec<char>> = Vec::new();
    let mut i: usize = 0;
    let ghost mut found: Seq<Seq<char>> = Seq::empty();
    assert(found + words_from(v@, 0) == words(v@));
    while i < v.len()
        invariant
            i <= v.len(),
            r@.len() == found.len(),
            forall|k: int| 0 <= k < r@.len() ==> (#[trigger] r@[k])@ == found[k],
            found + words_from(v@, i as int) == words(v@),
        decreases v.len() - i,
    {
        if char_is_space(v[i]) {
            i += 1;
        } else {
            let end = run_end(v, i, false);
            let word = slice_of(v, i, end);
            proof {
                assert(end > i);
                assert(found + (seq![word@] + words_from(v@, end as int)) == found.push(word@)
                    + words_from(v@, end as int));
                found = found.push(word@);
            }
            r.push(word);
            i = end;
        }
    }
    assert(found + Seq::<Seq<char>>::empty() == found);
    r
}

/// `s` without the white space at its two ends.
pub open spec fn trimmed(s: Seq<char>) -> Seq<char> {
    let start = run_len(s, 0, true) as int;
    if start >= s.len() {
        Seq::empty()
    } else {
        s.subrange(start, s.len() - trailing_spaces(s))
    }
}

/// How many white-space characters `s` ends with.
pub open spec fn trailing_spaces(s: Seq<char>) -> nat
    decreases s.len(),
{
    if s.len() == 0 || !is_space(s.last()) {
        0
    } else {
        1 + trailing_spaces(s.drop_last())
    }
}

/// `v` without the white space at its two ends.
pub fn trim(v: &Vec<char>) -> (r: Vec<char>)
    ensures
        r@ == trimmed(v@),
{
    let start = run_end(v, 0, true);
    if start >= v.len() {
        return Vec::new();
    }
    let mut end: usize = v.len();
    assert(v@.take(v.len() as int) == v@);
    while end > start && char_is_space(v[end - 1])
        invariant
            start < end <= v.len(),
            !is_space(v@[start as int]),
            trailing_spaces(v@) == (v.len() - end) + trailing_spaces(v@.take(end as int)),
        decreases end,
    {
        assert(v@.take(end as int).drop_last() == v@.take(end - 1));
        end -= 1;
    }
    proof {
        assert(end > start);
        assert(v@.take(end as int).last() == v@[end - 1]);
    }
    slice_of(v, start, end)
}

/// The first place at or after `from` where `s` holds `c`; the length of `s` where there is
/// none.
pub open spec fn find_from(s: Seq<char>, from: int, c: char) -> int
    decreases s.len() - from,
{
    if from < 0 || from >= s.len() {
        s.len() as int
    } else if s[from] == c {
        from
    } else {
        find_from(s, from + 1, c)
    }
}

/// What `find_from` gives lies between the place where it starts and the end.
pub proof fn lemma_find_from_bounds(s: Seq<char>, from: int, c: char)
    requires
        0 <= from <= s.len(),
    ensures
        from <= find_from(s, from, c) <= s.len(),
    decreases s.len() - from,
{
    if from < s.len() && s[from] != c {
        lemma_find_from_bounds(s, from + 1, c);
    }
}

/// The first place at or after `from` where `v` holds `c`; the length of `v` where there is
/// none.
pub fn find_char(v: &Vec<char>, from: usize, c: char) -> (at: usize)
    requires
        from <= v.len(),
    ensures
        at == find_from(v@, from as int, c),
        from <= at <= v.len(),
{
    let mut i: usize = from;
    while i < v.len() && v[i] != c
        invariant
            from <= i <= v.len(),
            find_from(v@, from as int, c) == find_from(v@, i as int, c),
        decreases v.len() - i,
    {
        i += 1;
    }
    i
}

/// The lines of `s` from `from` on, without their line endings. A line ends with a line feed,
/// or a carriage return and a line feed; the last line may go without.
pub open spec fn lines_from(s: Seq<char>, from: int) -> Seq<Seq<char>>
    decreases s.len() + 1 - from,
{
    if from < 0 || from >= s.len() {
        Seq::empty()
    } else {
        let end = find_from(s, from, '\n');
        if from <= end <= s.len() {
            let stop = if from < end < s.len() && s[end - 1] == '\r' {
                end - 1
            } else {
                end
            };
            seq![s.subrange(from, stop)] + lines_from(s, end + 1)
        } else {
            Seq::empty()
        }
    }
}

/// What the strings `items` hold.
pub open spec fn texts_of(items: Seq<String>) -> Seq<Seq<char>> {
    Seq::new(items.len(), |i: int| items[i]@)
}

/// Puts `text` at the end of `items`.
pub fn push_text(items: &mut Vec<String>, text: String)
    ensures
        texts_of(final(items)@) == texts_of(old(items)@).push(text@),
{
    let ghost before = items@;
    let ghost written = text@;
    items.push(text);
    assert(items@[before.len() as int]@ == written);
    assert forall|j: int| 0 <= j < before.len() implies items@[j]@ == before[j]@ by {}
    assert(texts_of(items@) =~= texts_of(before).push(written));
}

/// The lines of `file`, in order.
pub fn lines_of(file: &str) -> (r: Vec<String>)
    ensures
        texts_of(r@) == lines_from(file@, 0),
{
    let text = chars_of(file);
    let mut r: Vec<String> = Vec::new();
    let mut pos: usize = 0;
    assert(texts_of(r@) =~= Seq::<Seq<char>>::empty());
    assert(texts_of(r@) + lines_from(text@, 0) == lines_from(text@, 0));
    while pos < text.len()
        invariant
            pos <= text.len(),
            text@ == file@,
            texts_of(r@) + lines_from(text@, pos as int) == lines_from(text@, 0),
        decreases text.len() - pos,
    {
        let end = find_char(&text, pos, '\n');
        let stop = if pos < end && end < text.len() && text[end - 1] == '\r' {
            end - 1
        } else {
            end
        };
        let line = slice_of(&text, pos, stop);
        let ghost before = texts_of(r@);
        proof {
            let rest = lines_from(text@, end + 1);
            assert(lines_from(text@, pos as int) == seq![line@] + rest);
            assert(before + (seq![line@] + rest) == before.push(line@) + rest);
        }
        push_text(&mut r, string_of(&line));
        pos = if end < text.len() {
            end + 1
        } else {
            end
        };
    }
    assert(texts_of(r@) + Seq::<Seq<char>>::empty() == texts_of(r@));
    r
}

/// The words of `line`, in order.
pub fn words_of(line: &str) -> (r: Vec<String>)
    ensures
        texts_of(r@) == words(line@),
{
    let text = chars_of(line);
    let split = split_words(&text);
    let mut r: Vec<String> = Vec::new();
    let mut i: usize = 0;
    assert(texts_of(r@) =~= words(line@).take(0));
    while i < split.len()
        invariant
            i <= split.len(),
            split@.len() == words(line@).len(),
            forall|k: int| 0 <= k < split@.len() ==> (#[trigger] split@[k])@ == words(line@)[k],
            texts_of(r@) == words(line@).take(i as int),
        decreases split.len() - i,
    {
        push_text(&mut r, string_of(&split[i]));
        assert(words(line@).take(i + 1) == words(line@).take(i as int).push(words(line@)[i as int]));
        i += 1;
    }
    assert(words(line@).take(split@.len() as int) == words(line@));
    r
}

/// What an optional string holds.
pub open spec fn opt_text(s: Option<String>) -> Option<Seq<char>> {
    match s {
        Some(s) => Some(s@),
        None => None,
    }
}

/// What an optional string slice holds.
pub open spec fn opt_str_text(s: Option<&str>) -> Option<Seq<char>> {
    match s {
        Some(s) => Some(s@),
        None => None,
    }
}

} // verus!
