use vstd::prelude::*;
use crate::error::ScrapError;

verus! {

/// The JSON endpoint of the scrap named `slug`.
pub open spec fn api_url(slug: Seq<char>) -> Seq<char> {
    "https://zenn.dev/api/scraps/"@ + slug + "/blob.json"@
}

/// One request for a scrap's JSON: where to send it, and the session header
/// value to attach, if any.
pub struct FetchRequest {
    pub url: String,
    pub cookie: Option<String>,
}

/// The JSON endpoint of the scrap named `slug`.
pub fn scrap_api_url(slug: &str) -> (r: String)
    ensures
        r@ == api_url(slug@),
{
    let mut url = String::from_str("https://zenn.dev/api/scraps/");
    url.append(slug);
    url.append("/blob.json");
    url
}

/// The request for the scrap named `slug`: authenticated exactly when a
/// credential is given, and then with that credential as it is.
pub fn fetch_request(slug: &str, credential: Option<String>) -> (r: FetchRequest)
    ensures
        r.url@ == api_url(slug@),
        r.cookie == credential,
{
    FetchRequest { url: scrap_api_url(slug), cookie: credential }
}

/// A response status is a success exactly when it lies in 200..=299; any
/// other status fails the fetch and carries the status.
pub fn check_status(status: u16) -> (r: Result<(), ScrapError>)
    ensures
        200 <= status <= 299 ==> r is Ok,
        !(200 <= status <= 299) ==> r == Err::<(), ScrapError>(ScrapError::FetchFailed { status }),
{
    if 200 <= status && status <= 299 {
        Ok(())
    } else {
        Err(ScrapError::FetchFailed { status })
    }
}

} // verus!
