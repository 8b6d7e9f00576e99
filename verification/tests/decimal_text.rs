use asciii_cli::decimal::{count_text, parse_year, year_text};

#[test]
fn parse_plain_year() {
    assert_eq!(parse_year("2016"), Some(2016));
}

#[test]
fn parse_signed_years() {
    assert_eq!(parse_year("+42"), Some(42));
    assert_eq!(parse_year("-7"), Some(-7));
    assert_eq!(parse_year("007"), Some(7));
}

#[test]
fn parse_limits_of_i32() {
    assert_eq!(parse_year("2147483647"), Some(i32::MAX));
    assert_eq!(parse_year("-2147483648"), Some(i32::MIN));
    assert_eq!(parse_year("2147483648"), None);
    assert_eq!(parse_year("-2147483649"), None);
    assert_eq!(parse_year("99999999999999999999"), None);
}

#[test]
fn parse_rejects_what_std_rejects() {
    for s in ["", "+", "-", "20a6", " 2016", "2016 ", "--1", "+-1", "１２"] {
        assert_eq!(parse_year(s), s.parse::<i32>().ok(), "input {:?}", s);
    }
}

#[test]
fn parse_agrees_with_std() {
    for s in ["0", "-0", "+0", "1999", "-2147483648", "2147483647", "4294967296", "12x"] {
        assert_eq!(parse_year(s), s.parse::<i32>().ok(), "input {:?}", s);
    }
}

#[test]
fn year_text_matches_display() {
    for y in [0, 7, 10, 2016, -1, -2016, i32::MAX, i32::MIN] {
        assert_eq!(year_text(y), y.to_string());
    }
}

#[test]
fn year_text_reads_back() {
    for y in [0, 9, 10, 99, 100, 2017, -45, i32::MAX, i32::MIN] {
        assert_eq!(parse_year(&year_text(y)), Some(y));
    }
}

#[test]
fn count_text_matches_display() {
    for n in [0u16, 5, 80, 120, 65535] {
        assert_eq!(count_text(n), n.to_string());
    }
}
