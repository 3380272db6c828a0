use chromedriver_update::parsers::{
    parse_chromedriver_version_output, parse_chromium_version_output, parse_version_numbers,
    parse_version_output, parse_wmic_version, ParseErrorKind,
};
use chromedriver_update::version::{dec_string, Version};

#[test]
fn test_parse_driver_version_output() {
    let input = "ChromeDriver 89.0.4389.23 (61b08ee2c50024bab004e48d2b1b083cdbdac579-refs/branch-heads/4389@{#294})";
    let result = parse_chromedriver_version_output(input).ok().map(|(_, result)| result);
    assert_eq!(Some(Version::new(89, 0, 4389, 23)), result);
}

#[test]
fn test_parse_browser_version_output() {
    let result = parse_chromium_version_output("Google Chrome 109.0.5414.87")
        .ok()
        .map(|(_, result)| result);
    assert_eq!(Some(Version::new(109, 0, 5414, 87)), result);
}

#[test]
fn driver_output_leaves_the_parenthetical_as_rest() {
    let (rest, v) = parse_chromedriver_version_output("ChromeDriver 89.0.4389.23 (abc)").unwrap();
    assert_eq!(v, Version::new(89, 0, 4389, 23));
    assert_eq!(rest, " (abc)");
}

#[test]
fn browser_output_has_no_rest() {
    let (rest, _) = parse_chromium_version_output("Google Chrome 109.0.5414.87").unwrap();
    assert_eq!(rest, "");
}

#[test]
fn render_then_parse_gives_back_the_version() {
    let versions = [
        Version::new(0, 0, 0, 0),
        Version::new(89, 0, 4389, 23),
        Version::new(109, 0, 5414, 87),
        Version::new(4294967295, 10, 100, 4294967295),
    ];
    for v in versions {
        let text = v.to_string();
        let (rest, parsed) = parse_version_numbers(&text).unwrap();
        assert_eq!(parsed, v);
        assert_eq!(rest, "");
    }
}

#[test]
fn render_writes_all_four_components() {
    assert_eq!(Version::new(89, 0, 4389, 23).to_string(), "89.0.4389.23");
    assert_eq!(Version::new(0, 0, 0, 0).to_string(), "0.0.0.0");
}

#[test]
fn decimal_text_of_extremes() {
    assert_eq!(dec_string(0), "0");
    assert_eq!(dec_string(7), "7");
    assert_eq!(dec_string(10), "10");
    assert_eq!(dec_string(4294967295), "4294967295");
}

#[test]
fn bare_numbers_keep_trailing_text() {
    let (rest, v) = parse_version_numbers("91.0.4472.101\n").unwrap();
    assert_eq!(v, Version::new(91, 0, 4472, 101));
    assert_eq!(rest, "\n");
}

#[test]
fn leading_zeros_are_read_as_decimal() {
    let (_, v) = parse_version_numbers("007.00.010.9").unwrap();
    assert_eq!(v, Version::new(7, 0, 10, 9));
}

#[test]
fn missing_digits_fail_with_remainder() {
    let e = parse_version_numbers("89.0.x.23").unwrap_err();
    assert_eq!(e.kind, ParseErrorKind::Digits);
    assert_eq!(e.remainder, "x.23");
}

#[test]
fn empty_input_fails_on_digits() {
    let e = parse_version_numbers("").unwrap_err();
    assert_eq!(e.kind, ParseErrorKind::Digits);
    assert_eq!(e.remainder, "");
}

#[test]
fn three_components_fail_on_separator() {
    let e = parse_version_numbers("89.0.4389").unwrap_err();
    assert_eq!(e.kind, ParseErrorKind::Separator);
    assert_eq!(e.remainder, "");
    let e = parse_version_numbers("89.0-4389.1").unwrap_err();
    assert_eq!(e.kind, ParseErrorKind::Separator);
    assert_eq!(e.remainder, "-4389.1");
}

#[test]
fn number_above_u32_fails_on_range() {
    let e = parse_version_numbers("1.4294967296.0.0").unwrap_err();
    assert_eq!(e.kind, ParseErrorKind::Range);
    assert_eq!(e.remainder, "4294967296.0.0");
    let (_, v) = parse_version_numbers("1.4294967295.0.0").unwrap();
    assert_eq!(v, Version::new(1, 4294967295, 0, 0));
}

#[test]
fn wrong_label_fails_on_literal() {
    let e = parse_chromedriver_version_output("Chromium 89.0.4389.23").unwrap_err();
    assert_eq!(e.kind, ParseErrorKind::Literal);
    assert_eq!(e.remainder, "Chromium 89.0.4389.23");
    let e = parse_chromium_version_output("Google").unwrap_err();
    assert_eq!(e.kind, ParseErrorKind::Literal);
}

#[test]
fn label_may_be_followed_by_no_space_or_by_tabs() {
    let (_, v) = parse_version_output("App1.2.3.4", "App").unwrap();
    assert_eq!(v, Version::new(1, 2, 3, 4));
    let (_, v) = parse_version_output("App \t  1.2.3.4", "App").unwrap();
    assert_eq!(v, Version::new(1, 2, 3, 4));
}

#[test]
fn space_inside_a_number_is_refused() {
    let e = parse_version_output("App 1. 2.3.4", "App").unwrap_err();
    assert_eq!(e.kind, ParseErrorKind::Digits);
    assert_eq!(e.remainder, " 2.3.4");
}

#[test]
fn wmic_answer_is_parsed() {
    let (rest, v) = parse_wmic_version("\r\r\n\r\r\nVersion=109.0.5414.120\r\r\n\r\r\n").unwrap();
    assert_eq!(v, Version::new(109, 0, 5414, 120));
    assert_eq!(rest, "\r\r\n\r\r\n");
}

#[test]
fn wmic_answer_without_preamble_fails() {
    let e = parse_wmic_version("Version=109.0.5414.120").unwrap_err();
    assert_eq!(e.kind, ParseErrorKind::Literal);
    assert_eq!(e.remainder, "Version=109.0.5414.120");
    let e = parse_wmic_version("\r\n\r\nVersion=109.0.5414.120").unwrap_err();
    assert_eq!(e.kind, ParseErrorKind::Literal);
}
