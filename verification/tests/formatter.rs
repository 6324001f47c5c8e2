use corrodedbar::decimal::Decimal;
use corrodedbar::formatter::{
    fmtopt_f64, fmtopt_i64, fmtopt_string, parsefmtoptparams, parsefmtval, setfmtoptparam,
    FmtGenFloat64, FmtGenInt64, FmtGenString, FormatGenerator, FormatOptionParam,
    FormatOptionParamVal,
};
use corrodedbar::number::format_int;
use corrodedbar::utils::format_duration;

fn text(chars: Vec<char>) -> String {
    chars.into_iter().collect()
}

fn int_sample(val: i64, defaults: Option<&str>) -> FormatGenerator {
    FormatGenerator::OutputInt64(FmtGenInt64 { val: Some(val), defaultfmt: defaults.map(|s| s.to_string()) })
}

fn decimal_sample(mantissa: i64, scale: u8, defaults: Option<&str>) -> FormatGenerator {
    FormatGenerator::OutputFloat64(FmtGenFloat64 {
        val: Some(Decimal::new(mantissa, scale).unwrap()),
        defaultfmt: defaults.map(|s| s.to_string()),
    })
}

#[test]
fn plain_template_is_unchanged() {
    let out = corrodedbar::formatter::format("hello world", |_| Ok(None));
    assert_eq!(out, Ok(Some("hello world".to_string())));
}

#[test]
fn unknown_token_passes_through() {
    let out = corrodedbar::formatter::format("%q", |_| Ok(None));
    assert_eq!(out, Ok(Some("%q".to_string())));
}

#[test]
fn percent_percent_passes_through() {
    let out = corrodedbar::formatter::format("%%x", |_| Ok(None));
    assert_eq!(out, Ok(Some("%%x".to_string())));
}

#[test]
fn integer_divisor() {
    assert_eq!(text(format_int(125000, 1000, 0, 0)), "125");
}

#[test]
fn integer_modulus_and_padding() {
    assert_eq!(text(format_int(5, 1, 60, 2)), "05");
}

#[test]
fn integer_token_with_clause() {
    let out = corrodedbar::formatter::format("a%v[d1000 z4]b", |tag| {
        if tag == 'v' { Ok(Some(int_sample(125000, None))) } else { Ok(None) }
    });
    assert_eq!(out, Ok(Some("a0125b".to_string())));
}

#[test]
fn decimal_rounds_half_away_from_zero() {
    let out = corrodedbar::formatter::format("%v[p1]", |_| Ok(Some(decimal_sample(256, 3, None))));
    assert_eq!(out, Ok(Some("0.3".to_string())));
}

#[test]
fn decimal_zero_padding() {
    let out = corrodedbar::formatter::format("%v[p0 z3]", |_| Ok(Some(decimal_sample(256, 3, None))));
    assert_eq!(out, Ok(Some("000".to_string())));
}

#[test]
fn decimal_percentage_default() {
    let out = corrodedbar::formatter::format("%u%%", |tag| {
        if tag == 'u' { Ok(Some(decimal_sample(256, 3, Some("[d.01]")))) } else { Ok(None) }
    });
    assert_eq!(out, Ok(Some("26%%".to_string())));
}

#[test]
fn text_token_leaves_clause() {
    let out = corrodedbar::formatter::format("%t[d1]", |_| {
        Ok(Some(FormatGenerator::OutputString(FmtGenString { val: Some("x".to_string()) })))
    });
    assert_eq!(out, Ok(Some("x[d1]".to_string())));
}

#[test]
fn duration_days_hours_minutes() {
    let out = format_duration("%d %H:%M", Decimal::from_int(90061));
    assert_eq!(out, Ok(Some("1 01:01".to_string())));
}

#[test]
fn trailing_percent_is_dropped() {
    let out = corrodedbar::formatter::format("ab%", |_| Ok(None));
    assert_eq!(out, Ok(Some("ab".to_string())));
}

#[test]
fn missing_values_render_as_question_mark() {
    let out = corrodedbar::formatter::format("%t|%i[z3]|%f[p2]", |tag| {
        Ok(Some(match tag {
            't' => FormatGenerator::OutputString(FmtGenString { val: None }),
            'i' => FormatGenerator::OutputInt64(FmtGenInt64 { val: None, defaultfmt: None }),
            _ => FormatGenerator::OutputFloat64(FmtGenFloat64 { val: None, defaultfmt: None }),
        }))
    });
    assert_eq!(out, Ok(Some("?|?|?".to_string())));
}

#[test]
fn resolver_failure_fails_the_rendering() {
    let out = corrodedbar::formatter::format("a%x b%y", |tag| {
        if tag == 'x' { Ok(None) } else { Err("no sensor".to_string()) }
    });
    assert_eq!(out, Err("no sensor".to_string()));
}

#[test]
fn resolver_is_asked_for_the_tokens_only() {
    let asked = std::cell::RefCell::new(Vec::new());
    let out = corrodedbar::formatter::format("x%a[%b]y%c", |tag| {
        asked.borrow_mut().push(tag);
        if tag == 'a' { Ok(Some(int_sample(7, None))) } else { Ok(None) }
    });
    assert_eq!(out, Ok(Some("x7y%c".to_string())));
    assert_eq!(asked.into_inner(), vec!['a', 'c']);
}

#[test]
fn template_clause_overrides_default_clause() {
    let out = corrodedbar::formatter::format("%a %b[d10]", |_| Ok(Some(int_sample(1000, Some("[d100 z3]")))));
    assert_eq!(out, Ok(Some("010 100".to_string())));
}

#[test]
fn unknown_and_malformed_options_are_ignored() {
    let out = corrodedbar::formatter::format("%a[q5 dx z2 r p3 d]", |_| Ok(Some(int_sample(7, None))));
    assert_eq!(out, Ok(Some("07".to_string())));
}

#[test]
fn zero_divisor_divides_by_nothing() {
    assert_eq!(text(format_int(42, 0, 0, 0)), "42");
    let out = corrodedbar::formatter::format("%a[d0 p1]", |_| Ok(Some(decimal_sample(15, 1, None))));
    assert_eq!(out, Ok(Some("1.5".to_string())));
}

#[test]
fn negative_integers() {
    assert_eq!(text(format_int(-7, 2, 0, 0)), "-3");
    assert_eq!(text(format_int(-7, -2, 0, 0)), "3");
    assert_eq!(text(format_int(-7, 1, 5, 0)), "-2");
    assert_eq!(text(format_int(7, 1, -5, 0)), "2");
    assert_eq!(text(format_int(-5, 1, 0, 2)), "00-5");
}

#[test]
fn integer_extremes() {
    assert_eq!(text(format_int(i64::MIN, -1, 0, 0)), "9223372036854775808");
    assert_eq!(text(format_int(i64::MIN, 1, 0, 0)), "-9223372036854775808");
    assert_eq!(text(format_int(i64::MAX, 1, 0, 0)), "9223372036854775807");
    assert_eq!(text(format_int(i64::MIN, -1, -1, 0)), "0");
    assert_eq!(text(format_int(0, 1, 0, 0)), "0");
}

#[test]
fn unterminated_clause_runs_to_the_end() {
    let out = corrodedbar::formatter::format("%a[d10 z3 and more", |_| Ok(Some(int_sample(100, None))));
    assert_eq!(out, Ok(Some("010".to_string())));
}

#[test]
fn empty_clause_changes_nothing() {
    let out = corrodedbar::formatter::format("%a[]b%a[  ]", |_| Ok(Some(int_sample(100, None))));
    assert_eq!(out, Ok(Some("100b100".to_string())));
}

#[test]
fn decimal_carry_runs_into_the_whole_part() {
    let out = corrodedbar::formatter::format("%a[p2] %a[p0] %a[p3]", |_| Ok(Some(decimal_sample(9996, 3, None))));
    assert_eq!(out, Ok(Some("10.00 10 9.996".to_string())));
}

#[test]
fn decimal_half_goes_up() {
    let out = corrodedbar::formatter::format("%a %b", |tag| {
        Ok(Some(if tag == 'a' { decimal_sample(5, 1, None) } else { decimal_sample(25, 1, None) }))
    });
    assert_eq!(out, Ok(Some("1 3".to_string())));
}

#[test]
fn decimal_is_shown_without_sign() {
    let out = corrodedbar::formatter::format("%a[p1 z3]", |_| Ok(Some(decimal_sample(-1234, 2, None))));
    assert_eq!(out, Ok(Some("012.3".to_string())));
}

#[test]
fn decimal_divisor_and_many_places() {
    let out = corrodedbar::formatter::format("%a[d3 p25]", |_| Ok(Some(decimal_sample(1, 0, None))));
    assert_eq!(out, Ok(Some("0.3333333333333333333333333".to_string())));
}

#[test]
fn decimal_thousandth_divisor_from_default() {
    let out = corrodedbar::formatter::format("%t[p2]", |_| Ok(Some(decimal_sample(45123, 0, Some("[d1000 p1]")))));
    assert_eq!(out, Ok(Some("45.12".to_string())));
}

#[test]
fn duration_tokens() {
    let out = format_duration("%d|%H|%h|%M|%m|%S|%s|%L|%l|%x", Decimal::new(90061007, 3).unwrap());
    assert_eq!(out, Ok(Some("1|01|25|01|1501|01|90061|007|90061007|%x".to_string())));
}

#[test]
fn duration_clause_overrides_token() {
    let out = format_duration("%H[z4]", Decimal::from_int(7200));
    assert_eq!(out, Ok(Some("0002".to_string())));
}

#[test]
fn duration_truncates_to_milliseconds() {
    let out = format_duration("%l", Decimal::new(19999, 4).unwrap());
    assert_eq!(out, Ok(Some("1999".to_string())));
    assert_eq!(corrodedbar::utils::millis_of(Decimal::new(-19999, 4).unwrap()), -1999);
    assert_eq!(corrodedbar::utils::millis_of(Decimal::new(i64::MAX, 0).unwrap()), i64::MAX);
    assert_eq!(corrodedbar::utils::millis_of(Decimal::new(i64::MIN, 0).unwrap()), i64::MIN);
}

#[test]
fn sampler_results_become_answers() {
    let failed = |_: char| fmtopt_i64(Err("gone".to_string()), Some("[z2]"));
    assert_eq!(corrodedbar::formatter::format("%a", failed), Err("gone".to_string()));
    let int = |_: char| fmtopt_i64(Ok(Some(7)), Some("[z2]"));
    assert_eq!(corrodedbar::formatter::format("%a", int), Ok(Some("07".to_string())));
    let no_int = |_: char| fmtopt_i64(Ok(None), None);
    assert_eq!(corrodedbar::formatter::format("%a[z2]", no_int), Ok(Some("?".to_string())));
    let dec = |_: char| fmtopt_f64(Ok(Decimal::new(5, 1)), Some("[d.01]"));
    assert_eq!(corrodedbar::formatter::format("%a", dec), Ok(Some("50".to_string())));
    let text = |_: char| fmtopt_string(Ok(Some("on".to_string())));
    assert_eq!(corrodedbar::formatter::format("%a", text), Ok(Some("on".to_string())));
    let no_text = |_: char| fmtopt_string(Ok(None));
    assert_eq!(corrodedbar::formatter::format("%a", no_text), Ok(Some("?".to_string())));
}

fn table() -> Vec<FormatOptionParam> {
    vec![
        FormatOptionParam { id: 'd', val: FormatOptionParamVal::TypeInt64(1) },
        FormatOptionParam { id: 'p', val: FormatOptionParamVal::TypeUsize(0) },
        FormatOptionParam { id: 'd', val: FormatOptionParamVal::TypeFloat64(Decimal::from_int(1)) },
    ]
}

fn values(opts: &Vec<FormatOptionParam>) -> Vec<String> {
    opts.iter()
        .map(|o| match o.val {
            FormatOptionParamVal::TypeInt64(n) => format!("{}={}", o.id, n),
            FormatOptionParamVal::TypeUsize(n) => format!("{}={}u", o.id, n),
            FormatOptionParamVal::TypeFloat64(d) => format!("{}={}e-{}", o.id, d.mantissa(), d.scale()),
        })
        .collect()
}

#[test]
fn option_words_set_every_option_of_their_letter() {
    let mut opts = table();
    setfmtoptparam(&mut opts, &"d25".chars().collect());
    assert_eq!(values(&opts), vec!["d=25", "p=0u", "d=25e-0"]);
    setfmtoptparam(&mut opts, &"d.5".chars().collect());
    assert_eq!(values(&opts), vec!["d=25", "p=0u", "d=5e-1"]);
    setfmtoptparam(&mut opts, &"d-3".chars().collect());
    assert_eq!(values(&opts), vec!["d=-3", "p=0u", "d=-3e-0"]);
    setfmtoptparam(&mut opts, &"p-3".chars().collect());
    setfmtoptparam(&mut opts, &"p".chars().collect());
    setfmtoptparam(&mut opts, &"".chars().collect());
    setfmtoptparam(&mut opts, &"x1".chars().collect());
    assert_eq!(values(&opts), vec!["d=-3", "p=0u", "d=-3e-0"]);
}

#[test]
fn option_clause_is_read_from_its_place() {
    let text: Vec<char> = "ab[d7  p2]cd[p9".chars().collect();
    let mut opts = table();
    assert_eq!(parsefmtoptparams(&mut opts, &text, 0), 0);
    assert_eq!(parsefmtoptparams(&mut opts, &text, 3), 3);
    assert_eq!(values(&opts), vec!["d=1", "p=0u", "d=1e-0"]);
    assert_eq!(parsefmtoptparams(&mut opts, &text, 2), 10);
    assert_eq!(values(&opts), vec!["d=7", "p=2u", "d=7e-0"]);
    assert_eq!(parsefmtoptparams(&mut opts, &text, 12), 15);
    assert_eq!(values(&opts), vec!["d=7", "p=9u", "d=7e-0"]);
    assert_eq!(parsefmtoptparams(&mut opts, &text, 15), 15);
}

#[test]
fn sample_text_and_the_place_after_it() {
    let text: Vec<char> = "%a[z3]x".chars().collect();
    let (out, next) = parsefmtval(&text, 2, &int_sample(5, None));
    assert_eq!((out.into_iter().collect::<String>(), next), ("005".to_string(), 6));
    let (out, next) = parsefmtval(&text, 2, &FormatGenerator::OutputString(FmtGenString { val: Some("t".to_string()) }));
    assert_eq!((out.into_iter().collect::<String>(), next), ("t".to_string(), 2));
    let (out, next) = parsefmtval(&text, 7, &decimal_sample(5, 1, None));
    assert_eq!((out.into_iter().collect::<String>(), next), ("1".to_string(), 7));
}
