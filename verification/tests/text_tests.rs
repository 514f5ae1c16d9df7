use media_ingest::markup::strip_markup;
use media_ingest::text::{get_base_url, look_between, remove_all, truncate};

#[test]
fn look_between_finds_first_span() {
    assert_eq!(
        look_between("a[x]b[y]c", "[", "]"),
        Some("x".to_string())
    );
}

#[test]
fn look_between_missing_start_is_none() {
    assert_eq!(look_between("plain text", "[", "]"), None);
}

#[test]
fn look_between_missing_end_is_none() {
    assert_eq!(look_between("a[x without close", "[", "]"), None);
}

#[test]
fn look_between_href() {
    assert_eq!(
        look_between("<a href=\"https://example.com/p\">t</a>", "href=\"", "\""),
        Some("https://example.com/p".to_string())
    );
}

#[test]
fn truncate_identity_when_short() {
    assert_eq!(truncate("hello", 10), "hello");
    assert_eq!(truncate("hello", 5), "hello");
}

#[test]
fn truncate_bounds_length() {
    let r = truncate("hello world", 5);
    assert_eq!(r, "hello");
    assert!(r.chars().count() <= 5);
}

#[test]
fn truncate_empty_and_zero() {
    assert_eq!(truncate("", 0), "");
    assert_eq!(truncate("abc", 0), "");
}

#[test]
fn truncate_counts_characters_not_bytes() {
    // Each accented character is two bytes; truncation must not split one.
    assert_eq!(truncate("héllo", 2), "hé");
}

#[test]
fn base_url_of_absolute_url() {
    assert_eq!(
        get_base_url("https://www.antiwar.com/latest.php"),
        "https://www.antiwar.com"
    );
}

#[test]
fn base_url_without_path_is_whole() {
    assert_eq!(get_base_url("https://example.com"), "https://example.com");
    assert_eq!(get_base_url("no slashes here"), "no slashes here");
}

#[test]
fn remove_all_strips_family_suffix() {
    assert_eq!(remove_all("Walton & family", " & family"), "Walton");
    assert_eq!(remove_all("plain name", " & family"), "plain name");
}

#[test]
fn remove_all_strips_every_occurrence() {
    assert_eq!(remove_all("aXbXc", "X"), "abc");
}

#[test]
fn strip_markup_removes_tags() {
    assert_eq!(strip_markup("<b>hi</b> there"), "hi there");
    assert_eq!(strip_markup("no tags"), "no tags");
}

#[test]
fn strip_markup_passes_unclosed_tag_through() {
    assert_eq!(strip_markup("a<b"), "a<b");
}

#[test]
fn strip_markup_is_idempotent() {
    for s in [
        "<b>hi</b> there",
        "a<b",
        "<<a>>",
        "",
        "plain",
        "<div align=\"right\">Updated </div>",
    ] {
        let once = strip_markup(s);
        let twice = strip_markup(&once);
        assert_eq!(twice, once);
    }
}
