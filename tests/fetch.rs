use zenn_scrap::error::ScrapError;
use zenn_scrap::fetch::{check_status, fetch_request, scrap_api_url};

#[test]
fn api_url_for_slug() {
    assert_eq!(scrap_api_url("abc"), "https://zenn.dev/api/scraps/abc/blob.json");
}

#[test]
fn request_carries_credential_only_when_given() {
    let r = fetch_request("abc", Some("_zenn_session=x".to_string()));
    assert_eq!(r.url, "https://zenn.dev/api/scraps/abc/blob.json");
    assert_eq!(r.cookie, Some("_zenn_session=x".to_string()));
    let r = fetch_request("abc", None);
    assert_eq!(r.cookie, None);
}

#[test]
fn status_classification() {
    assert_eq!(check_status(200), Ok(()));
    assert_eq!(check_status(299), Ok(()));
    assert_eq!(check_status(404), Err(ScrapError::FetchFailed { status: 404 }));
    assert_eq!(check_status(199), Err(ScrapError::FetchFailed { status: 199 }));
    assert_eq!(check_status(300), Err(ScrapError::FetchFailed { status: 300 }));
}
