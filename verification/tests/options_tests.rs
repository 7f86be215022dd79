use rsomics_kpss_test::options::{lower_char, parse_decimal_usize, parse_options, NLags, OptionError, Regression};

#[test]
fn regression_parse_accepts_c_and_ct_in_any_case() {
    assert_eq!(Regression::parse("c"), Some(Regression::C));
    assert_eq!(Regression::parse("C"), Some(Regression::C));
    assert_eq!(Regression::parse("ct"), Some(Regression::Ct));
    assert_eq!(Regression::parse("CT"), Some(Regression::Ct));
    assert_eq!(Regression::parse("cT"), Some(Regression::Ct));
}

#[test]
fn regression_parse_refuses_other_names() {
    assert_eq!(Regression::parse(""), None);
    assert_eq!(Regression::parse("n"), None);
    assert_eq!(Regression::parse("ctt"), None);
    assert_eq!(Regression::parse(" c"), None);
    assert_eq!(Regression::parse("t"), None);
    assert_eq!(Regression::parse("ç"), None);
}

#[test]
fn nlags_parse_keywords_in_any_case() {
    assert_eq!(NLags::parse("auto"), Some(NLags::Auto));
    assert_eq!(NLags::parse("AUTO"), Some(NLags::Auto));
    assert_eq!(NLags::parse("Auto"), Some(NLags::Auto));
    assert_eq!(NLags::parse("legacy"), Some(NLags::Legacy));
    assert_eq!(NLags::parse("LeGaCy"), Some(NLags::Legacy));
}

#[test]
fn nlags_parse_integers_as_std_does() {
    assert_eq!(NLags::parse("5"), Some(NLags::Fixed(5)));
    assert_eq!(NLags::parse("0"), Some(NLags::Fixed(0)));
    assert_eq!(NLags::parse("+12"), Some(NLags::Fixed(12)));
    assert_eq!(NLags::parse("007"), Some(NLags::Fixed(7)));
    let max = usize::MAX.to_string();
    assert_eq!(NLags::parse(&max), Some(NLags::Fixed(usize::MAX)));
    for s in ["5", "+12", "007", "123456789", "", "+", "-3", "1a", " 4", "4 ", "++1", "99999999999999999999999"] {
        assert_eq!(parse_decimal_usize(s), s.parse::<usize>().ok(), "input {s:?}");
    }
}

#[test]
fn nlags_parse_refuses_non_integers() {
    assert_eq!(NLags::parse(""), None);
    assert_eq!(NLags::parse("+"), None);
    assert_eq!(NLags::parse("-1"), None);
    assert_eq!(NLags::parse("1.5"), None);
    assert_eq!(NLags::parse("auto1"), None);
    assert_eq!(NLags::parse("٣"), None);
}

#[test]
fn nlags_parse_refuses_overflow() {
    let too_big = format!("{}0", usize::MAX);
    assert_eq!(NLags::parse(&too_big), None);
    assert_eq!(parse_decimal_usize("340282366920938463463374607431768211456"), None);
}

#[test]
fn parsing_ignores_ascii_case_on_examples() {
    for s in ["Ct", "AUTO", "Legacy", "+7", "x", "C"] {
        let lower = s.to_ascii_lowercase();
        assert_eq!(Regression::parse(s), Regression::parse(&lower));
        assert_eq!(NLags::parse(s), NLags::parse(&lower));
    }
}

#[test]
fn decimal_representation_names_fixed_lags() {
    for n in [0usize, 1, 9, 10, 42, 1000, usize::MAX / 3, usize::MAX] {
        assert_eq!(NLags::parse(&n.to_string()), Some(NLags::Fixed(n)));
        assert_eq!(NLags::parse(&format!("+{n}")), Some(NLags::Fixed(n)));
    }
}

#[test]
fn lower_char_only_changes_ascii_capitals() {
    assert_eq!(lower_char('A'), 'a');
    assert_eq!(lower_char('Z'), 'z');
    assert_eq!(lower_char('a'), 'a');
    assert_eq!(lower_char('@'), '@');
    assert_eq!(lower_char('['), '[');
    assert_eq!(lower_char('É'), 'É');
}

#[test]
fn options_are_read_regression_first() {
    assert_eq!(parse_options("c", "auto"), Ok((Regression::C, NLags::Auto)));
    assert_eq!(parse_options("CT", "15"), Ok((Regression::Ct, NLags::Fixed(15))));
    assert_eq!(parse_options("x", "auto"), Err(OptionError::UnknownRegression));
    assert_eq!(parse_options("x", "bad"), Err(OptionError::UnknownRegression));
    assert_eq!(parse_options("c", "bad"), Err(OptionError::UnknownNLags));
    assert_eq!(parse_options("ct", "-1"), Err(OptionError::UnknownNLags));
}
