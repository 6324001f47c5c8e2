use corrodedbar::decimal::{format_decimal, read_decimal, Decimal, MAX_SCALE};
use corrodedbar::number::{pad_zeros, read_i64, read_usize, FromText};
use corrodedbar::text::{chars_of, same_text, split_words, string_of, trim};

fn chars(s: &str) -> Vec<char> {
    s.chars().collect()
}

fn text(chars: Vec<char>) -> String {
    chars.into_iter().collect()
}

#[test]
fn signed_numbers_are_read() {
    assert_eq!(read_i64(&chars("0")), Some(0));
    assert_eq!(read_i64(&chars("+17")), Some(17));
    assert_eq!(read_i64(&chars("-17")), Some(-17));
    assert_eq!(read_i64(&chars("007")), Some(7));
    assert_eq!(read_i64(&chars("9223372036854775807")), Some(i64::MAX));
    assert_eq!(read_i64(&chars("-9223372036854775808")), Some(i64::MIN));
}

#[test]
fn malformed_signed_numbers_are_refused() {
    assert_eq!(read_i64(&chars("")), None);
    assert_eq!(read_i64(&chars("+")), None);
    assert_eq!(read_i64(&chars("-")), None);
    assert_eq!(read_i64(&chars("1 ")), None);
    assert_eq!(read_i64(&chars("1.5")), None);
    assert_eq!(read_i64(&chars("--1")), None);
    assert_eq!(read_i64(&chars("9223372036854775808")), None);
    assert_eq!(read_i64(&chars("-9223372036854775809")), None);
    assert_eq!(read_i64(&chars("99999999999999999999999999999999999999999999")), None);
}

#[test]
fn unsigned_numbers_are_read() {
    assert_eq!(read_usize(&chars("12")), Some(12));
    assert_eq!(read_usize(&chars("+12")), Some(12));
    assert_eq!(read_usize(&chars("-12")), None);
    assert_eq!(read_usize(&chars("-0")), None);
    assert_eq!(read_usize(&chars("")), None);
    assert_eq!(read_usize(&chars("18446744073709551616")), None);
    assert_eq!(u8::parse("255"), Some(255));
    assert_eq!(u8::parse("256"), None);
    assert_eq!(u64::parse("18446744073709551615"), Some(u64::MAX));
    assert_eq!(u64::parse("x"), None);
    assert_eq!(i64::parse("-3"), Some(-3));
    assert_eq!(usize::parse("3"), Some(3));
}

#[test]
fn reading_agrees_with_the_standard_library() {
    for s in ["", "+", "-", "0", "-0", "+0", "12", "1a", "a1", " 1", "00012", "-00012", "4294967296"] {
        assert_eq!(read_i64(&chars(s)), s.parse::<i64>().ok());
        assert_eq!(read_usize(&chars(s)), s.parse::<usize>().ok());
        assert_eq!(u8::parse(s), s.parse::<u8>().ok());
    }
}

fn parts(d: Option<Decimal>) -> Option<(i64, u8)> {
    d.map(|d| (d.mantissa(), d.scale()))
}

#[test]
fn decimals_are_read() {
    assert_eq!(parts(read_decimal(&chars("1000"))), Some((1000, 0)));
    assert_eq!(parts(read_decimal(&chars(".01"))), Some((1, 2)));
    assert_eq!(parts(read_decimal(&chars("0.256"))), Some((256, 3)));
    assert_eq!(parts(read_decimal(&chars("-12.5"))), Some((-125, 1)));
    assert_eq!(parts(read_decimal(&chars("+3."))), Some((3, 0)));
    assert_eq!(parts(read_decimal(&chars("1.000000000000000000"))), Some((1_000_000_000_000_000_000, 18)));
    assert_eq!(parts(Decimal::parse("86400.25")), Some((8640025, 2)));
}

#[test]
fn malformed_decimals_are_refused() {
    assert_eq!(parts(read_decimal(&chars(""))), None);
    assert_eq!(parts(read_decimal(&chars("."))), None);
    assert_eq!(parts(read_decimal(&chars("-"))), None);
    assert_eq!(parts(read_decimal(&chars("1.2.3"))), None);
    assert_eq!(parts(read_decimal(&chars("1e3"))), None);
    assert_eq!(parts(read_decimal(&chars("1,5"))), None);
    assert_eq!(parts(read_decimal(&chars("0.0000000000000000001"))), None);
    assert_eq!(parts(read_decimal(&chars("9223372036854775808"))), None);
}

#[test]
fn decimal_scale_is_bounded() {
    assert!(Decimal::new(1, MAX_SCALE).is_some());
    assert!(Decimal::new(1, MAX_SCALE + 1).is_none());
    let d = Decimal::from_int(-4);
    assert_eq!((d.mantissa(), d.scale()), (-4, 0));
}

#[test]
fn decimal_formatting() {
    let d = |m: i64, s: u8| Decimal::new(m, s).unwrap();
    assert_eq!(text(format_decimal(d(256, 3), d(1, 0), 1, 0)), "0.3");
    assert_eq!(text(format_decimal(d(256, 3), d(1, 0), 0, 3)), "000");
    assert_eq!(text(format_decimal(d(256, 3), d(1, 2), 0, 0)), "26");
    assert_eq!(text(format_decimal(d(-256, 3), d(-1, 2), 2, 4)), "0025.60");
    assert_eq!(text(format_decimal(d(0, 0), d(7, 0), 3, 0)), "0.000");
    assert_eq!(text(format_decimal(d(2, 0), d(3, 0), 4, 0)), "0.6667");
    assert_eq!(text(format_decimal(d(i64::MAX, 0), d(1, 18), 0, 0)), "9223372036854775807000000000000000000");
    assert_eq!(text(format_decimal(d(i64::MIN, 18), d(i64::MIN, 0), 1, 0)), "0.0");
    assert_eq!(text(format_decimal(d(999, 3), d(1, 0), 2, 0)), "1.00");
    assert_eq!(text(format_decimal(d(12345, 3), d(1, 0), 1, 0)), "12.3");
    assert_eq!(text(format_decimal(d(12355, 3), d(1, 0), 2, 0)), "12.36");
}

#[test]
fn zero_padding_counts_leading_digits_only() {
    assert_eq!(text(pad_zeros(chars("7"), 3)), "007");
    assert_eq!(text(pad_zeros(chars("1234"), 3)), "1234");
    assert_eq!(text(pad_zeros(chars("1.25"), 3)), "001.25");
    assert_eq!(text(pad_zeros(chars("-1"), 2)), "00-1");
    assert_eq!(text(pad_zeros(chars(""), 2)), "00");
    assert_eq!(text(pad_zeros(chars("12"), 0)), "12");
}

#[test]
fn text_helpers() {
    assert_eq!(chars_of("a\u{1f50b}c"), vec!['a', '\u{1f50b}', 'c']);
    assert_eq!(string_of(&chars("héllo")), "héllo");
    assert!(same_text("abc", "abc"));
    assert!(!same_text("abc", "abd"));
    assert!(!same_text("abc", "ab"));
    assert_eq!(text(trim(&chars("  a b \t\n"))), "a b");
    assert_eq!(text(trim(&chars(" \u{a0} "))), "");
    assert_eq!(text(trim(&chars("x"))), "x");
    let words: Vec<String> = split_words(&chars(" battery  cpu\ttime\n")).into_iter().map(text).collect();
    assert_eq!(words, vec!["battery", "cpu", "time"]);
    assert!(split_words(&chars("   ")).is_empty());
}

#[test]
fn trimming_and_splitting_agree_with_the_standard_library() {
    for s in ["", " ", "a", " a", "a ", " a b ", "\u{2003}x\u{3000}", "\u{85}y\u{1680}", "a\u{200b}b", "\rz\u{c}"] {
        assert_eq!(text(trim(&chars(s))), s.trim());
        let ours: Vec<String> = split_words(&chars(s)).into_iter().map(text).collect();
        let theirs: Vec<String> = s.split_whitespace().map(|w| w.to_string()).collect();
        assert_eq!(ours, theirs);
    }
}
