use vstd::prelude::*;

verus! {

/// Ten to the power `n`.
pub open spec fn pow10(n: nat) -> nat
    decreases n,
{
    if n == 0 {
        1
    } else {
        10 * pow10((n - 1) as nat)
    }
}

/// Whether `c` is one of the ten ASCII digits.
pub open spec fn is_digit(c: char) -> bool {
    '0' <= c && c <= '9'
}

/// The number that the digit `c` stands for.
pub open spec fn digit_value(c: char) -> nat {
    (c as nat - 48) as nat
}

/// The digit that stands for `d`, for `d` below ten.
pub open spec fn digit_char(d: nat) -> char {
    ((d + 48) as u8) as char
}

/// Whether `s` holds digits only.
pub open spec fn all_digits(s: Seq<char>) -> bool {
    forall|i: int| 0 <= i < s.len() ==> is_digit(#[trigger] s[i])
}

/// The number that the digits `s` write in base ten; zero for the empty sequence.
pub open spec fn digits_value(s: Seq<char>) -> nat
    decreases s.len(),
{
    if s.len() == 0 {
        0
    } else {
        digits_value(s.drop_last()) * 10 + digit_value(s.last())
    }
}

/// The shortest way to write `n` in base ten.
pub open spec fn nat_digits(n: nat) -> Seq<char>
    decreases n,
{
    if n < 10 {
        seq![digit_char(n)]
    } else {
        nat_digits(n / 10).push(digit_char(n % 10))
    }
}

/// `n` written in base ten on exactly `width` digits, the lowest ones where it needs more.
pub open spec fn fixed_digits(n: nat, width: nat) -> Seq<char>
    decreases width,
{
    if width == 0 {
        Seq::empty()
    } else {
        fixed_digits(n / 10, (width - 1) as nat).push(digit_char(n % 10))
    }
}

/// `n` written in base ten, with a minus sign in front where it is negative.
pub open spec fn int_digits(n: int) -> Seq<char> {
    if n < 0 {
        seq!['-'] + nat_digits((-n) as nat)
    } else {
        nat_digits(n as nat)
    }
}

/// How many digits `s` starts with.
pub open spec fn leading_digits(s: Seq<char>) -> nat
    decreases s.len(),
{
    if s.len() == 0 || !is_digit(s[0]) {
        0
    } else {
        1 + leading_digits(s.skip(1))
    }
}

/// The quotient of `a` by `b`, rounded toward zero.
pub open spec fn trunc_div(a: int, b: int) -> int {
    if a >= 0 {
        if b > 0 {
            a / b
        } else {
            -(a / (-b))
        }
    } else {
        if b > 0 {
            -((-a) / b)
        } else {
            (-a) / (-b)
        }
    }
}

/// What is left of `a` after `trunc_div(a, b)` times `b`; it has the sign of `a`.
pub open spec fn trunc_rem(a: int, b: int) -> int {
    a - trunc_div(a, b) * b
}

/// A power of ten is at least one.
pub proof fn lemma_pow10_positive(n: nat)
    ensures
        pow10(n) >= 1,
    decreases n,
{
    if n > 0 {
        lemma_pow10_positive((n - 1) as nat);
    }
}

/// A higher power of ten is no smaller.
pub proof fn lemma_pow10_monotonic(a: nat, b: nat)
    requires
        a <= b,
    ensures
        pow10(a) <= pow10(b),
    decreases b,
{
    if a < b {
        lemma_pow10_monotonic(a, (b - 1) as nat);
    }
}

/// The digit for `d`.
pub fn digit_of(d: u8) -> (c: char)
    requires
        d < 10,
    ensures
        c == digit_char(d as nat),
        is_digit(c),
        digit_value(c) == d,
{
    let c = (d + 48) as char;
    c
}

/// The value of the digit `c`.
pub fn value_of_digit(c: char) -> (d: u8)
    requires
        is_digit(c),
    ensures
        d == digit_value(c),
        d < 10,
        digit_char(d as nat) == c,
{
    let d = (c as u32 - 48) as u8;
    d
}

/// Whether `c` is a digit.
pub fn char_is_digit(c: char) -> (r: bool)
    ensures
        r == is_digit(c),
{
    '0' <= c && c <= '9'
}

/// Appends the shortest base-ten writing of `n` to `out`.
pub fn push_nat_digits(out: &mut Vec<char>, n: u128)
    ensures
        final(out)@ == old(out)@ + nat_digits(n as nat),
    decreases n,
{
    if n >= 10 {
        push_nat_digits(out, n / 10);
    }
    out.push(digit_of((n % 10) as u8));
    proof {
        if n >= 10 {
            assert(old(out)@ + nat_digits(n as nat / 10).push(digit_char(n as nat % 10)) == (old(
                out,
            )@ + nat_digits(n as nat / 10)).push(digit_char(n as nat % 10)));
        } else {
            assert(old(out)@ + seq![digit_char(n as nat)] == old(out)@.push(digit_char(n as nat)));
        }
    }
}

/// What a run of digits says: its value, where there is at least one digit, nothing but digits,
/// and the value is no more than `limit`.
pub open spec fn parse_digits(s: Seq<char>, limit: nat) -> Option<nat> {
    if s.len() > 0 && all_digits(s) && digits_value(s) <= limit {
        Some(digits_value(s))
    } else {
        None
    }
}

/// What `s` says as an unsigned number of the machine's word size: an optional `+`, then digits.
pub open spec fn parse_usize(s: Seq<char>) -> Option<usize> {
    let body = if s.len() > 0 && s[0] == '+' {
        s.skip(1)
    } else {
        s
    };
    match parse_digits(body, usize::MAX as nat) {
        Some(n) => Some(n as usize),
        None => None,
    }
}

/// What `s` says as a signed 64-bit number: an optional `+` or `-`, then digits.
pub open spec fn parse_i64(s: Seq<char>) -> Option<i64> {
    if s.len() > 0 && s[0] == '-' {
        match parse_digits(s.skip(1), 0x8000_0000_0000_0000) {
            Some(n) => Some((-(n as int)) as i64),
            None => None,
        }
    } else {
        let body = if s.len() > 0 && s[0] == '+' {
            s.skip(1)
        } else {
            s
        };
        match parse_digits(body, 0x7fff_ffff_ffff_ffff) {
            Some(n) => Some(n as i64),
            None => None,
        }
    }
}

/// One more digit makes the value ten times what it was, plus the digit.
proof fn lemma_digits_value_step(s: Seq<char>, i: int)
    requires
        0 <= i < s.len(),
    ensures
        digits_value(s.take(i + 1)) == digits_value(s.take(i)) * 10 + digit_value(s[i]),
{
    assert(s.take(i + 1).drop_last() == s.take(i));
}

/// The first digits of a run write no more than the whole run.
proof fn lemma_digits_value_grows(s: Seq<char>, i: int)
    requires
        0 <= i <= s.len(),
    ensures
        digits_value(s.take(i)) <= digits_value(s),
    decreases s.len() - i,
{
    if i < s.len() {
        lemma_digits_value_step(s, i);
        lemma_digits_value_grows(s, i + 1);
    } else {
        assert(s.take(i) == s);
    }
}

/// Reads the digits of `v` from `from` on.
pub fn read_digits(v: &Vec<char>, from: usize, limit: u128) -> (r: Option<u128>)
    requires
        from <= v.len(),
        limit <= 0xffff_ffff_ffff_ffff,
    ensures
        r matches Some(n) ==> parse_digits(v@.skip(from as int), limit as nat) == Some(n as nat),
        r is None ==> parse_digits(v@.skip(from as int), limit as nat) is None,
{
    let ghost body = v@.skip(from as int);
    if from == v.len() {
        return None;
    }
    let mut acc: u128 = 0;
    let mut i: usize = from;
    while i < v.len()
        invariant
            from <= i <= v.len(),
            body == v@.skip(from as int),
            limit <= 0xffff_ffff_ffff_ffff,
            acc <= limit,
            acc == digits_value(body.take(i - from)),
            all_digits(body.take(i - from)),
        decreases v.len() - i,
    {
        let c = v[i];
        assert(body[i - from] == c);
        if !char_is_digit(c) {
            return None;
        }
        proof {
            lemma_digits_value_step(body, i - from);
            lemma_digits_value_grows(body, i - from + 1);
            assert(body.take(i - from + 1) == body.take(i - from).push(c));
        }
        acc = acc * 10 + value_of_digit(c) as u128;
        if acc > limit {
            return None;
        }
        i += 1;
    }
    assert(body.take(i - from) == body);
    Some(acc)
}

/// Reads `v` as an unsigned number of the machine's word size.
pub fn read_usize(v: &Vec<char>) -> (r: Option<usize>)
    ensures
        r == parse_usize(v@),
{
    let from: usize = if v.len() > 0 && v[0] == '+' {
        1
    } else {
        0
    };
    assert(v@.skip(0) == v@);
    match read_digits(v, from, usize::MAX as u128) {
        Some(n) => Some(n as usize),
        None => None,
    }
}

/// Reads `v` as a signed 64-bit number.
pub fn read_i64(v: &Vec<char>) -> (r: Option<i64>)
    ensures
        r == parse_i64(v@),
{
    assert(v@.skip(0) == v@);
    if v.len() > 0 && v[0] == '-' {
        match read_digits(v, 1, 0x8000_0000_0000_0000) {
            Some(n) => Some((-(n as i128)) as i64),
            None => None,
        }
    } else {
        let from: usize = if v.len() > 0 && v[0] == '+' {
            1
        } else {
            0
        };
        match read_digits(v, from, 0x7fff_ffff_ffff_ffff) {
            Some(n) => Some(n as i64),
            None => None,
        }
    }
}

/// `count` zeros.
pub open spec fn zeros(count: nat) -> Seq<char> {
    Seq::new(count, |i: int| '0')
}

/// `text` with zeros put in front until it starts with at least `width` digits. Only the digits
/// that `text` starts with count: a sign, or a point and what follows it, does not.
pub open spec fn zero_padded(text: Seq<char>, width: nat) -> Seq<char> {
    if leading_digits(text) < width {
        zeros((width - leading_digits(text)) as nat) + text
    } else {
        text
    }
}

/// The number shown for the sample `val`: divided by `divisor` toward zero, unless `divisor` is
/// zero, and of that the remainder by `modulus`, unless `modulus` is zero.
pub open spec fn scaled_int(val: int, divisor: int, modulus: int) -> int {
    let quotient = if divisor != 0 {
        trunc_div(val, divisor)
    } else {
        val
    };
    if modulus != 0 {
        trunc_rem(quotient, modulus)
    } else {
        quotient
    }
}

/// The text shown for an integer sample under the given divisor, modulus and zero padding.
pub open spec fn int_text(val: int, divisor: int, modulus: int, zeropad: nat) -> Seq<char> {
    zero_padded(int_digits(scaled_int(val, divisor, modulus)), zeropad)
}

/// Appends `n` in base ten to `out`, with a minus sign in front where it is negative.
pub fn push_int_digits(out: &mut Vec<char>, n: i128)
    requires
        n > i128::MIN,
    ensures
        final(out)@ == old(out)@ + int_digits(n as int),
{
    if n < 0 {
        out.push('-');
        push_nat_digits(out, (-n) as u128);
        assert(old(out)@.push('-') + nat_digits((-n) as nat) == old(out)@ + (seq!['-'] + nat_digits(
            (-n) as nat,
        )));
    } else {
        push_nat_digits(out, n as u128);
    }
}

/// The quotient of `a` by `b`, rounded toward zero.
pub fn div_toward_zero(a: i128, b: i128) -> (q: i128)
    requires
        b != 0,
        -0x1_0000_0000_0000_0000_0000 <= a <= 0x1_0000_0000_0000_0000_0000,
        -0x1_0000_0000_0000_0000_0000 <= b <= 0x1_0000_0000_0000_0000_0000,
    ensures
        q == trunc_div(a as int, b as int),
        a >= 0 ==> -a <= q <= a,
        a <= 0 ==> a <= q <= -a,
{
    let ua: u128 = if a < 0 {
        (-a) as u128
    } else {
        a as u128
    };
    let ub: u128 = if b < 0 {
        (-b) as u128
    } else {
        b as u128
    };
    let uq: u128 = ua / ub;
    assert(uq <= ua) by (nonlinear_arith)
        requires
            uq == ua / ub,
            ub >= 1,
    ;
    if (a < 0) != (b < 0) {
        -(uq as i128)
    } else {
        uq as i128
    }
}

/// What is left of `a` after the quotient by `b`, rounded toward zero, times `b`.
pub fn rem_toward_zero(a: i128, b: i128) -> (r: i128)
    requires
        b != 0,
        -0x8000_0000_0000_0000 <= a <= 0x8000_0000_0000_0000,
        i64::MIN <= b <= i64::MAX,
    ensures
        r == trunc_rem(a as int, b as int),
        i64::MIN < r <= i64::MAX,
{
    let ua: u128 = if a < 0 {
        (-a) as u128
    } else {
        a as u128
    };
    let ub: u128 = if b < 0 {
        (-b) as u128
    } else {
        b as u128
    };
    let ur: u128 = ua % ub;
    proof {
        let x = ua as int;
        let y = ub as int;
        let q = x / y;
        assert(x == y * q + x % y && 0 <= x % y && x % y < y) by (nonlinear_arith)
            requires
                y > 0,
                q == x / y,
        ;
        assert((-q) * y == -(q * y) && q * (-y) == -(q * y) && (-q) * (-y) == q * y && y * q == q
            * y) by (nonlinear_arith);
    }
    if a < 0 {
        -(ur as i128)
    } else {
        ur as i128
    }
}

/// Counting the leading digits may go on from any point that only digits come before.
proof fn lemma_leading_digits_split(s: Seq<char>, k: int)
    requires
        0 <= k <= s.len(),
        all_digits(s.take(k)),
    ensures
        leading_digits(s) == k + leading_digits(s.skip(k)),
    decreases k,
{
    if k == 0 {
        assert(s.skip(0) == s);
    } else {
        assert(s.take(k)[0] == s[0]);
        assert(is_digit(s[0]));
        let t = s.skip(1);
        assert(t.take(k - 1) == s.take(k).skip(1));
        assert forall|i: int| 0 <= i < k - 1 implies is_digit(#[trigger] t.take(k - 1)[i]) by {
            assert(t.take(k - 1)[i] == s.take(k)[i + 1]);
        }
        lemma_leading_digits_split(t, k - 1);
        assert(t.skip(k - 1) == s.skip(k));
    }
}

/// How many digits `v` has from `from` on before anything else comes.
pub fn count_leading_digits(v: &Vec<char>, from: usize) -> (n: usize)
    requires
        from <= v.len(),
    ensures
        n == leading_digits(v@.skip(from as int)),
        from + n <= v.len(),
{
    let ghost body = v@.skip(from as int);
    let mut i: usize = from;
    while i < v.len() && char_is_digit(v[i])
        invariant
            from <= i <= v.len(),
            body == v@.skip(from as int),
            all_digits(body.take(i - from)),
        decreases v.len() - i,
    {
        assert(body.take(i - from + 1) == body.take(i - from).push(v@[i as int]));
        i += 1;
    }
    proof {
        lemma_leading_digits_split(body, i - from);
        if i < v.len() {
            assert(body.skip(i - from)[0] == v@[i as int]);
        }
    }
    i - from
}

/// Puts zeros in front of `text` until it starts with at least `width` digits.
pub fn pad_zeros(text: Vec<char>, width: usize) -> (r: Vec<char>)
    ensures
        r@ == zero_padded(text@, width as nat),
{
    assert(text@.skip(0) == text@);
    let have = count_leading_digits(&text, 0);
    if have >= width {
        return text;
    }
    let mut r: Vec<char> = Vec::new();
    let mut i: usize = 0;
    while i < width - have
        invariant
            have < width,
            i <= width - have,
            r@ == zeros(i as nat),
        decreases width - have - i,
    {
        r.push('0');
        assert(zeros(i as nat).push('0') == zeros((i + 1) as nat));
        i += 1;
    }
    let mut k: usize = 0;
    while k < text.len()
        invariant
            k <= text.len(),
            r@ == zeros((width - have) as nat) + text@.take(k as int),
        decreases text.len() - k,
    {
        r.push(text[k]);
        assert(text@.take(k + 1) == text@.take(k as int).push(text@[k as int]));
        k += 1;
    }
    assert(text@.take(text.len() as int) == text@);
    r
}

/// The text shown for the integer sample `val` under the given divisor, modulus and zero padding.
pub fn format_int(val: i64, divisor: i64, modulus: i64, zeropad: usize) -> (r: Vec<char>)
    ensures
        r@ == int_text(val as int, divisor as int, modulus as int, zeropad as nat),
{
    let quotient: i128 = if divisor != 0 {
        div_toward_zero(val as i128, divisor as i128)
    } else {
        val as i128
    };
    let shown: i128 = if modulus != 0 {
        rem_toward_zero(quotient, modulus as i128)
    } else {
        quotient
    };
    let mut text: Vec<char> = Vec::new();
    push_int_digits(&mut text, shown);
    assert(text@ == int_digits(shown as int));
    pad_zeros(text, zeropad)
}

/// Digits on `n` places write less than ten to the power `n`.
pub proof fn lemma_digits_value_bound(s: Seq<char>)
    requires
        all_digits(s),
    ensures
        digits_value(s) < pow10(s.len()),
    decreases s.len(),
{
    if s.len() > 0 {
        let head = s.drop_last();
        assert forall|i: int| 0 <= i < head.len() implies is_digit(#[trigger] head[i]) by {
            assert(head[i] == s[i]);
        }
        lemma_digits_value_bound(head);
        assert(is_digit(s[s.len() - 1]));
    }
}

/// Writing the value of a run of digits on as many places gives the run back.
pub proof fn lemma_fixed_digits_of_value(s: Seq<char>)
    requires
        all_digits(s),
    ensures
        fixed_digits(digits_value(s), s.len()) == s,
    decreases s.len(),
{
    if s.len() > 0 {
        let head = s.drop_last();
        assert forall|i: int| 0 <= i < head.len() implies is_digit(#[trigger] head[i]) by {
            assert(head[i] == s[i]);
        }
        lemma_fixed_digits_of_value(head);
        let last = s[s.len() - 1];
        assert(is_digit(last));
        let v = digits_value(s);
        assert(v == digits_value(head) * 10 + digit_value(last));
        assert(v / 10 == digits_value(head));
        assert(v % 10 == digit_value(last));
        assert(digit_char(digit_value(last)) == last);
        assert(head.push(last) == s);
    } else {
        assert(fixed_digits(digits_value(s), 0) == Seq::<char>::empty());
        assert(s == Seq::<char>::empty());
    }
}

/// How the value of a run of digits moves when one of them is replaced.
pub proof fn lemma_digits_value_update(s: Seq<char>, j: int, c: char)
    requires
        0 <= j < s.len(),
    ensures
        digits_value(s.update(j, c)) + digit_value(s[j]) * pow10((s.len() - 1 - j) as nat)
            == digits_value(s) + digit_value(c) * pow10((s.len() - 1 - j) as nat),
    decreases s.len(),
{
    let t = s.update(j, c);
    let e = (s.len() - 1 - j) as nat;
    let x = digit_value(s[j]);
    let y = digit_value(c);
    assert(t.len() == s.len());
    assert(digits_value(t) == digits_value(t.drop_last()) * 10 + digit_value(t.last()));
    assert(digits_value(s) == digits_value(s.drop_last()) * 10 + digit_value(s.last()));
    if j == s.len() - 1 {
        assert(t.drop_last() == s.drop_last());
        assert(t.last() == c);
        assert(s.last() == s[j]);
        assert(pow10(e) == 1);
        assert(x * 1 == x && y * 1 == y);
    } else {
        assert(t.drop_last() == s.drop_last().update(j, c));
        assert(t.last() == s.last());
        lemma_digits_value_update(s.drop_last(), j, c);
        let p = pow10((e - 1) as nat);
        assert(pow10(e) == 10 * p);
        let a = digits_value(t.drop_last());
        let b = digits_value(s.drop_last());
        assert(s.drop_last()[j] == s[j]);
        assert(s.drop_last().len() - 1 - j == e - 1);
        assert(a + x * p == b + y * p);
        assert(a * 10 + x * (10 * p) == b * 10 + y * (10 * p)) by (nonlinear_arith)
            requires
                a + x * p == b + y * p,
        ;
    }
}

/// A kind of value that a text can be read as.
pub trait FromText: Sized {
    /// What the text `s` says as a value of this kind, where it says one.
    spec fn parsed(s: Seq<char>) -> Option<Self>;

    /// Reads `s` as a value of this kind.
    fn parse(s: &str) -> (r: Option<Self>)
        ensures
            r == Self::parsed(s@),
    ;
}

/// What `s` says as an unsigned number no larger than `max`: an optional `+`, then digits.
pub open spec fn parse_unsigned(s: Seq<char>, max: nat) -> Option<nat> {
    let body = if s.len() > 0 && s[0] == '+' {
        s.skip(1)
    } else {
        s
    };
    parse_digits(body, max)
}

/// Reads `s` as an unsigned number no larger than `max`.
pub fn read_unsigned(s: &str, max: u64) -> (r: Option<u64>)
    ensures
        r matches Some(n) ==> parse_unsigned(s@, max as nat) == Some(n as nat),
        r is None ==> parse_unsigned(s@, max as nat) is None,
{
    let v = crate::text::chars_of(s);
    let from: usize = if v.len() > 0 && v[0] == '+' {
        1
    } else {
        0
    };
    assert(v@.skip(0) == v@);
    match read_digits(&v, from, max as u128) {
        Some(n) => Some(n as u64),
        None => None,
    }
}

impl FromText for u64 {
    open spec fn parsed(s: Seq<char>) -> Option<u64> {
        match parse_unsigned(s, u64::MAX as nat) {
            Some(n) => Some(n as u64),
            None => None,
        }
    }

    fn parse(s: &str) -> (r: Option<u64>) {
        read_unsigned(s, u64::MAX)
    }
}

impl FromText for u8 {
    open spec fn parsed(s: Seq<char>) -> Option<u8> {
        match parse_unsigned(s, u8::MAX as nat) {
            Some(n) => Some(n as u8),
            None => None,
        }
    }

    fn parse(s: &str) -> (r: Option<u8>) {
        match read_unsigned(s, 255) {
            Some(n) => Some(n as u8),
            None => None,
        }
    }
}

impl FromText for usize {
    open spec fn parsed(s: Seq<char>) -> Option<usize> {
        parse_usize(s)
    }

    fn parse(s: &str) -> (r: Option<usize>) {
        let v = crate::text::chars_of(s);
        read_usize(&v)
    }
}

impl FromText for i64 {
    open spec fn parsed(s: Seq<char>) -> Option<i64> {
        parse_i64(s)
    }

    fn parse(s: &str) -> (r: Option<i64>) {
        let v = crate::text::chars_of(s);
        read_i64(&v)
    }
}

} // verus!
