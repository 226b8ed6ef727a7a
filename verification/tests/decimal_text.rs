use big_totoro::decimal::{format_i64, parse_i64, IntErrorKind};
use big_totoro::text::split_commas;

#[test]
fn format_writes_decimal() {
    assert_eq!(format_i64(0), "0");
    assert_eq!(format_i64(7), "7");
    assert_eq!(format_i64(-42), "-42");
    assert_eq!(format_i64(1234567890), "1234567890");
    assert_eq!(format_i64(i64::MAX), "9223372036854775807");
    assert_eq!(format_i64(i64::MIN), "-9223372036854775808");
}

#[test]
fn format_agrees_with_std() {
    for n in [0i64, 1, -1, 9, 10, -10, 99, 100, 86400, -86399, i64::MAX, i64::MIN, i64::MIN + 1] {
        assert_eq!(format_i64(n), n.to_string());
    }
}

#[test]
fn parse_reads_decimal() {
    assert_eq!(parse_i64("8080"), Ok(8080));
    assert_eq!(parse_i64("+15"), Ok(15));
    assert_eq!(parse_i64("-15"), Ok(-15));
    assert_eq!(parse_i64("007"), Ok(7));
    assert_eq!(parse_i64("9223372036854775807"), Ok(i64::MAX));
    assert_eq!(parse_i64("-9223372036854775808"), Ok(i64::MIN));
}

#[test]
fn parse_errors_match_std() {
    assert_eq!(parse_i64(""), Err(IntErrorKind::Empty));
    assert_eq!(parse_i64("+"), Err(IntErrorKind::InvalidDigit));
    assert_eq!(parse_i64("-"), Err(IntErrorKind::InvalidDigit));
    assert_eq!(parse_i64("12a"), Err(IntErrorKind::InvalidDigit));
    assert_eq!(parse_i64(" 12"), Err(IntErrorKind::InvalidDigit));
    assert_eq!(parse_i64("9223372036854775808"), Err(IntErrorKind::PosOverflow));
    assert_eq!(parse_i64("-9223372036854775809"), Err(IntErrorKind::NegOverflow));
    assert_eq!(parse_i64("92233720368547758070x"), Err(IntErrorKind::PosOverflow));
    assert_eq!(parse_i64("9223372036854775807x"), Err(IntErrorKind::InvalidDigit));
    for s in ["", "+", "-", "1x", "x1", "99999999999999999999", "-99999999999999999999", "١٢", "+-1", "--1"] {
        let ours = parse_i64(s);
        let std = s.parse::<i64>();
        match (ours, std) {
            (Ok(a), Ok(b)) => assert_eq!(a, b),
            (Err(k), Err(e)) => assert_eq!(k.message(), e.to_string(), "text {:?}", s),
            (a, b) => panic!("disagree on {:?}: {:?} {:?}", s, a, b),
        }
    }
}

#[test]
fn parse_error_messages() {
    assert_eq!(IntErrorKind::Empty.message(), "cannot parse integer from empty string");
    assert_eq!(IntErrorKind::InvalidDigit.message(), "invalid digit found in string");
    assert_eq!(IntErrorKind::PosOverflow.message(), "number too large to fit in target type");
    assert_eq!(IntErrorKind::NegOverflow.message(), "number too small to fit in target type");
}

#[test]
fn format_then_parse_gives_number_back() {
    for n in [0i64, 5, -5, 123456789, -987654321, i64::MAX, i64::MIN] {
        assert_eq!(parse_i64(&format_i64(n)), Ok(n));
    }
}

#[test]
fn split_at_commas() {
    assert_eq!(split_commas("web,ios,android"), vec!["web", "ios", "android"]);
    assert_eq!(split_commas("web"), vec!["web"]);
    assert_eq!(split_commas(""), vec![""]);
    assert_eq!(split_commas("a,,b,"), vec!["a", "", "b", ""]);
    assert_eq!(split_commas(",平台"), vec!["", "平台"]);
}

#[test]
fn split_agrees_with_std_and_joins_back() {
    for s in ["", ",", "a", "a,b", ",a,", "http://1.2.3.4:2379,http://5.6.7.8:2379"] {
        let parts = split_commas(s);
        let std: Vec<String> = s.split(",").map(str::to_string).collect();
        assert_eq!(parts, std);
        assert_eq!(parts.join(","), s);
    }
}
