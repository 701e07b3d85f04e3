use ctc_notify::duration::get_duration;
use ctc_notify::link::get_url;
use ctc_notify::text::str_contains_ci;
use ctc_notify::text::u64_to_string;

#[test]
fn duration_full_code() {
    assert_eq!(get_duration("PT1H35M7S"), 5707);
}

#[test]
fn duration_seconds_only() {
    assert_eq!(get_duration("PT45S"), 45);
}

#[test]
fn duration_empty_fields() {
    assert_eq!(get_duration("PT"), 0);
}

#[test]
fn duration_hours_only() {
    assert_eq!(get_duration("PT2H"), 7200);
}

#[test]
fn duration_malformed_is_zero() {
    assert_eq!(get_duration(""), 0);
    assert_eq!(get_duration("1H35M"), 0);
    assert_eq!(get_duration("PT5S3M"), 0);
    assert_eq!(get_duration("PTxS"), 0);
    assert_eq!(get_duration("PT1H35M7S extra"), 0);
}

#[test]
fn duration_overflow_is_zero() {
    assert_eq!(get_duration("PT99999999999999999999S"), 0);
    assert_eq!(get_duration("PT18446744073709551615S"), u64::MAX);
}

#[test]
fn url_first_match() {
    let text = "...see https://app.example.com/sudoku/Ab12Cd3 for...";
    assert_eq!(
        get_url(text).as_deref(),
        Some("https://app.example.com/sudoku/Ab12Cd3")
    );
}

#[test]
fn url_absent() {
    assert_eq!(get_url("no link anywhere in this text"), None);
}

#[test]
fn url_trailing_punctuation_dropped() {
    assert_eq!(
        get_url("read https://example.com/a. then stop").as_deref(),
        Some("https://example.com/a")
    );
}

#[test]
fn url_needs_dotted_host() {
    assert_eq!(get_url("local http://localhost/x only"), None);
}

#[test]
fn url_http_scheme() {
    assert_eq!(
        get_url("go http://a-b.example_site.org/p?q=1&r=2 now").as_deref(),
        Some("http://a-b.example_site.org/p?q=1&r=2")
    );
}

#[test]
fn url_bare_host() {
    assert_eq!(
        get_url("at https://tinyurl.com, maybe").as_deref(),
        Some("https://tinyurl.com")
    );
}

#[test]
fn url_amid_unicode_text() {
    assert_eq!(
        get_url("énigme du jour — https://a.b.c/x — déjà vu").as_deref(),
        Some("https://a.b.c/x")
    );
}

#[test]
fn url_first_of_several() {
    assert_eq!(
        get_url("http://one.example/a then https://two.example/b").as_deref(),
        Some("http://one.example/a")
    );
}

#[test]
fn contains_ci_folds_case() {
    assert!(str_contains_ci("Wordle 912 was hard", "wordle"));
    assert!(str_contains_ci("THE CROSSWORD HOUR", "crossword"));
    assert!(!str_contains_ci("sudoku only", "wordle"));
    assert!(str_contains_ci("anything", ""));
}

#[test]
fn decimal_rendering() {
    assert_eq!(u64_to_string(0), "0");
    assert_eq!(u64_to_string(7), "7");
    assert_eq!(u64_to_string(5707), "5707");
    assert_eq!(u64_to_string(u64::MAX), "18446744073709551615");
}
