use gem_finder::format::{
    changelog_clean_header, changelog_clean_item, fmt_release_day, fmt_thousands,
    token_payload_base64, trimmed_note,
};

#[test]
fn thousands() {
    assert_eq!(fmt_thousands(0), "0");
    assert_eq!(fmt_thousands(999), "999");
    assert_eq!(fmt_thousands(1000), "1,000");
    assert_eq!(fmt_thousands(1234567), "1,234,567");
    assert_eq!(fmt_thousands(-1234), "-1,234");
    assert_eq!(fmt_thousands(i64::MAX), "9,223,372,036,854,775,807");
    assert_eq!(fmt_thousands(2300000).replace(',', ""), "2300000");
}

#[test]
fn release_days() {
    assert_eq!(fmt_release_day("1994-03-10"), Some("10 Mar".to_string()));
    assert_eq!(fmt_release_day("1994-12-01"), Some("1 Dec".to_string()));
    assert_eq!(fmt_release_day("1994-13-01"), None);
    assert_eq!(fmt_release_day("1994-03"), None);
    assert_eq!(fmt_release_day("1994-03-x"), None);
    assert_eq!(fmt_release_day("1994-00-05"), None);
}

#[test]
fn changelog_items() {
    assert_eq!(
        changelog_clean_item("**analytics:** track views ([abc123](https://x/c/abc123))"),
        "analytics: track views"
    );
    assert_eq!(changelog_clean_item("plain entry"), "plain entry");
    assert_eq!(changelog_clean_item("a ([x]) b ([y])"), "a ([x]) b");
    assert_eq!(changelog_clean_item("***x"), "*x");
}

#[test]
fn changelog_headers() {
    assert_eq!(changelog_clean_header("[0.2.0](https://x/compare) (2024-05-01)"), "v0.2.0 (2024-05-01)");
    assert_eq!(changelog_clean_header("[0.1.0] - 2024-01-01"), "v0.1.0 - 2024-01-01");
    assert_eq!(changelog_clean_header("Unreleased"), "Unreleased");
    assert_eq!(changelog_clean_header("[broken"), "[broken");
    assert_eq!(changelog_clean_header("[1.0](open"), "v1.0 (open");
}

#[test]
fn token_payloads() {
    assert_eq!(token_payload_base64("h.eyJ-_w.s"), Some("eyJ+/w==".to_string()));
    assert_eq!(token_payload_base64("h.abcd.s"), Some("abcd".to_string()));
    assert_eq!(token_payload_base64("h.abc"), Some("abc=".to_string()));
    assert_eq!(token_payload_base64("nodots"), None);
}

#[test]
fn notes() {
    assert_eq!(trimmed_note(Some("  hi  ")), Some("hi".to_string()));
    assert_eq!(trimmed_note(Some("   ")), None);
    assert_eq!(trimmed_note(None), None);
}
