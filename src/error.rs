use vstd::prelude::*;

verus! {

/// Every way a run can fail. Each error surfaces to the top level unchanged.
#[derive(Debug, Clone, Copy, PartialEq, Eq, Structural)]
pub enum ScrapError {
    /// The identifier or URL is empty once trailing separators are removed.
    InvalidIdentifier,
    /// The browser-automation endpoint could not be reached or refused a session.
    AutomationUnavailable,
    /// The operator finished the login but no session cookie was present.
    SessionCookieNotFound,
    /// The platform answered with a non-success status.
    FetchFailed { status: u16 },
    /// The response body does not have the expected shape.
    MalformedResponse,
    /// An I/O or network failure other than a non-success status.
    TransportError,
}

} // verus!
