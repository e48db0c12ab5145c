use vstd::prelude::*;
use crate::error::ScrapError;

verus! {

/// The name of the platform's session cookie.
pub const SESSION_COOKIE_NAME: &'static str = "_zenn_session";

/// The local browser-automation endpoint used for interactive login.
pub const AUTOMATION_ENDPOINT: &'static str = "http://localhost:9515";

/// The platform's sign-in page.
pub const SIGN_IN_URL: &'static str = "https://zenn.dev/sign_in";

/// How long to let the page set its cookies after the operator confirms.
pub const SETTLE_MILLIS: u64 = 2000;

/// Where the session credential comes from.
pub enum CredentialChoice {
    /// A credential that was supplied; used as it is.
    Use(String),
    /// None was supplied: acquire one through an interactive browser login.
    AcquireInteractively,
}

/// Resolves the credential chain: the explicit credential first, then the
/// one from the environment; only when both are absent is an interactive
/// login asked for.
pub fn resolve_credential(explicit: Option<String>, env: Option<String>) -> (r: CredentialChoice)
    ensures
        match explicit {
            Some(c) => r == CredentialChoice::Use(c),
            None => match env {
                Some(e) => r == CredentialChoice::Use(e),
                None => r is AcquireInteractively,
            },
        },
{
    match explicit {
        Some(c) => CredentialChoice::Use(c),
        None => match env {
            Some(e) => CredentialChoice::Use(e),
            None => CredentialChoice::AcquireInteractively,
        },
    }
}

/// The first position in `cookies` at or after `i` whose name is the session
/// cookie's.
pub open spec fn first_session_cookie(cookies: Seq<(String, String)>, i: int) -> Option<int>
    decreases cookies.len() - i,
{
    if i < 0 || i >= cookies.len() {
        None
    } else if cookies[i].0@ == SESSION_COOKIE_NAME@ {
        Some(i)
    } else {
        first_session_cookie(cookies, i + 1)
    }
}

/// The session header value `name=value` formed from the first cookie,
/// among `(name, value)` pairs, that carries the session cookie's name.
pub fn session_cookie_header(cookies: &Vec<(String, String)>) -> (r: Result<String, ScrapError>)
    ensures
        match first_session_cookie(cookies@, 0) {
            Some(i) => r is Ok && r->Ok_0@ == SESSION_COOKIE_NAME@ + "="@ + cookies@[i].1@,
            None => r == Err::<String, ScrapError>(ScrapError::SessionCookieNotFound),
        },
{
    let name = String::from_str(SESSION_COOKIE_NAME);
    let mut i: usize = 0;
    while i < cookies.len()
        invariant
            i <= cookies@.len(),
            name@ == SESSION_COOKIE_NAME@,
            first_session_cookie(cookies@, 0) == first_session_cookie(cookies@, i as int),
        decreases cookies@.len() - i,
    {
        if cookies[i].0 == name {
            let mut header = String::from_str(SESSION_COOKIE_NAME);
            header.append("=");
            header.append(cookies[i].1.as_str());
            return Ok(header);
        }
        i = i + 1;
    }
    Err(ScrapError::SessionCookieNotFound)
}

/// Where the interactive login stands.
pub enum LoginState {
    /// Waiting for an automation session to be created.
    Connecting,
    /// A session is open; waiting for the sign-in page to load.
    Navigating,
    /// Waiting for the operator to confirm that the login is done.
    AwaitingOperator,
    /// Waiting for the page's cookie scripts to settle.
    Settling,
    /// Waiting for the session's cookies.
    ReadingCookies,
    /// Closing the session; the outcome to report once it is closed.
    Closing(Result<String, ScrapError>),
    /// The login is over and no session is open.
    Finished(Result<String, ScrapError>),
}

/// What the caller must do next for the interactive login.
pub enum LoginAction {
    /// Create an automation session at the endpoint.
    Connect(String),
    /// Load the page at the URL in the session's browser.
    Navigate(String),
    /// Show the message and wait for the operator's confirmation.
    PromptOperator(String),
    /// Wait this many milliseconds.
    Sleep(u64),
    /// Read every cookie visible to the session.
    ReadCookies,
    /// Close the automation session.
    CloseSession,
    /// Stop: the login ends with this outcome.
    Finish(Result<String, ScrapError>),
}

/// The outcome of the last action, as reported by the caller.
pub enum LoginEvent {
    /// The action completed.
    Done,
    /// The cookies read, as `(name, value)` pairs.
    Cookies(Vec<(String, String)>),
    /// The action failed.
    Failed,
}

/// A browser session is open in this state.
pub open spec fn session_open(s: LoginState) -> bool {
    match s {
        LoginState::Navigating | LoginState::AwaitingOperator | LoginState::Settling
        | LoginState::ReadingCookies | LoginState::Closing(_) => true,
        _ => false,
    }
}

/// The message shown to the operator while the browser waits for a login.
pub open spec fn prompt_text() -> Seq<char> {
    "Browser opened. Please log in (including Google OAuth) and then press ENTER here..."@
}

/// The outcome a login reports when closing the session fails.
pub open spec fn outcome_after_failed_close(r: Result<String, ScrapError>) -> Result<String, ScrapError> {
    match r {
        Ok(_) => Err(ScrapError::TransportError),
        Err(e) => Err(e),
    }
}

/// Starts the interactive login: create an automation session.
pub fn start_login() -> (r: (LoginState, LoginAction))
    ensures
        r.0 is Connecting,
        r.1 is Connect && r.1->Connect_0@ == AUTOMATION_ENDPOINT@,
{
    (LoginState::Connecting, LoginAction::Connect(String::from_str(AUTOMATION_ENDPOINT)))
}

/// Advances the interactive login by one step, given the outcome of the last
/// action. Every path that opened a session closes it before finishing.
pub fn login_step(state: LoginState, event: LoginEvent) -> (r: (LoginState, LoginAction))
    ensures
        session_open(state) && !(state is Closing) ==> !(r.1 is Finish),
        r.1 is Finish ==> (r.0 is Finished && !session_open(r.0)),
        r.1 is CloseSession ==> r.0 is Closing,
        session_open(r.0) || r.0 is Finished,
        match state {
            LoginState::Connecting => match event {
                LoginEvent::Done => r.0 is Navigating && r.1 is Navigate && r.1->Navigate_0@
                    == SIGN_IN_URL@,
                _ => r.0 == LoginState::Finished(Err(ScrapError::AutomationUnavailable))
                    && r.1 == LoginAction::Finish(Err(ScrapError::AutomationUnavailable)),
            },
            LoginState::Navigating => match event {
                LoginEvent::Done => r.0 is AwaitingOperator && r.1 is PromptOperator
                    && r.1->PromptOperator_0@ == prompt_text(),
                _ => r.0 == LoginState::Closing(Err(ScrapError::TransportError)) && r.1 is CloseSession,
            },
            LoginState::AwaitingOperator => match event {
                LoginEvent::Done => r.0 is Settling && r.1 == LoginAction::Sleep(SETTLE_MILLIS),
                _ => r.0 == LoginState::Closing(Err(ScrapError::TransportError)) && r.1 is CloseSession,
            },
            LoginState::Settling => match event {
                LoginEvent::Done => r.0 is ReadingCookies && r.1 is ReadCookies,
                _ => r.0 == LoginState::Closing(Err(ScrapError::TransportError)) && r.1 is CloseSession,
            },
            LoginState::ReadingCookies => match event {
                LoginEvent::Cookies(cs) => r.1 is CloseSession && r.0 is Closing && match first_session_cookie(cs@, 0) {
                    Some(i) => r.0->Closing_0 is Ok && r.0->Closing_0->Ok_0@ == SESSION_COOKIE_NAME@ + "="@ + cs@[i].1@,
                    None => r.0->Closing_0 == Err::<String, ScrapError>(ScrapError::SessionCookieNotFound),
                },
                _ => r.0 == LoginState::Closing(Err(ScrapError::TransportError)) && r.1 is CloseSession,
            },
            LoginState::Closing(outcome) => match event {
                LoginEvent::Done => r.0 == LoginState::Finished(outcome) && r.1 == LoginAction::Finish(outcome),
                _ => r.0 == LoginState::Finished(outcome_after_failed_close(outcome))
                    && r.1 == LoginAction::Finish(outcome_after_failed_close(outcome)),
            },
            LoginState::Finished(outcome) => r.0 == LoginState::Finished(outcome) && r.1 == LoginAction::Finish(outcome),
        },
{
    match state {
        LoginState::Connecting => match event {
            LoginEvent::Done => (LoginState::Navigating, LoginAction::Navigate(String::from_str(SIGN_IN_URL))),
            _ => (
                LoginState::Finished(Err(ScrapError::AutomationUnavailable)),
                LoginAction::Finish(Err(ScrapError::AutomationUnavailable)),
            ),
        },
        LoginState::Navigating => match event {
            LoginEvent::Done => (
                LoginState::AwaitingOperator,
                LoginAction::PromptOperator(String::from_str(
                    "Browser opened. Please log in (including Google OAuth) and then press ENTER here...",
                )),
            ),
            _ => (LoginState::Closing(Err(ScrapError::TransportError)), LoginAction::CloseSession),
        },
        LoginState::AwaitingOperator => match event {
            LoginEvent::Done => (LoginState::Settling, LoginAction::Sleep(SETTLE_MILLIS)),
            _ => (LoginState::Closing(Err(ScrapError::TransportError)), LoginAction::CloseSession),
        },
        LoginState::Settling => match event {
            LoginEvent::Done => (LoginState::ReadingCookies, LoginAction::ReadCookies),
            _ => (LoginState::Closing(Err(ScrapError::TransportError)), LoginAction::CloseSession),
        },
        LoginState::ReadingCookies => match event {
            LoginEvent::Cookies(cs) => (LoginState::Closing(session_cookie_header(&cs)), LoginAction::CloseSession),
            _ => (LoginState::Closing(Err(ScrapError::TransportError)), LoginAction::CloseSession),
        },
        LoginState::Closing(outcome) => match event {
            LoginEvent::Done => {
                let again = copy_outcome(&outcome);
                (LoginState::Finished(outcome), LoginAction::Finish(again))
            },
            _ => {
                let e = match outcome {
                    Ok(_) => ScrapError::TransportError,
                    Err(e) => e,
                };
                (LoginState::Finished(Err(e)), LoginAction::Finish(Err(e)))
            },
        },
        LoginState::Finished(outcome) => {
            let again = copy_outcome(&outcome);
            (LoginState::Finished(outcome), LoginAction::Finish(again))
        },
    }
}

fn copy_outcome(r: &Result<String, ScrapError>) -> (c: Result<String, ScrapError>)
    ensures
        c == *r,
{
    match r {
        Ok(s) => Ok(s.clone()),
        Err(e) => Err(*e),
    }
}

} // verus!
