use zenn_scrap::error::ScrapError;
use zenn_scrap::slug::extract_slug;

#[test]
fn slug_from_full_url() {
    assert_eq!(extract_slug("https://zenn.dev/foo/scraps/barbaz").unwrap(), "barbaz");
}

#[test]
fn slug_bare_identifier() {
    assert_eq!(extract_slug("barbaz").unwrap(), "barbaz");
}

#[test]
fn slug_trailing_separator() {
    assert_eq!(extract_slug("https://example.com/scraps/slug/").unwrap(), "slug");
}

#[test]
fn slug_many_trailing_separators() {
    assert_eq!(extract_slug("https://example.com/scraps/slug///").unwrap(), "slug");
    assert_eq!(extract_slug("barbaz//").unwrap(), "barbaz");
}

#[test]
fn slug_first_marker_wins() {
    assert_eq!(extract_slug("a/scraps/b/scraps/c").unwrap(), "b/scraps/c");
}

#[test]
fn slug_marker_without_identifier_is_kept_whole() {
    assert_eq!(extract_slug("https://x/scraps/").unwrap(), "https://x/scraps");
}

#[test]
fn slug_empty_is_rejected() {
    assert_eq!(extract_slug(""), Err(ScrapError::InvalidIdentifier));
    assert_eq!(extract_slug("///"), Err(ScrapError::InvalidIdentifier));
}

#[test]
fn slug_non_ascii() {
    assert_eq!(extract_slug("https://zenn.dev/ユーザー/scraps/スラッグ/").unwrap(), "スラッグ");
}
