use zenn_scrap::credential::{
    login_step, resolve_credential, session_cookie_header, start_login, CredentialChoice,
    LoginAction, LoginEvent, LoginState, SETTLE_MILLIS,
};
use zenn_scrap::error::ScrapError;

fn used(c: CredentialChoice) -> Option<String> {
    match c {
        CredentialChoice::Use(s) => Some(s),
        CredentialChoice::AcquireInteractively => None,
    }
}

fn pairs(items: &[(&str, &str)]) -> Vec<(String, String)> {
    items.iter().map(|(n, v)| (n.to_string(), v.to_string())).collect()
}

#[test]
fn explicit_credential_wins_over_env() {
    let r = resolve_credential(Some("cli".to_string()), Some("env".to_string()));
    assert_eq!(used(r), Some("cli".to_string()));
    let r = resolve_credential(Some("cli".to_string()), None);
    assert_eq!(used(r), Some("cli".to_string()));
}

#[test]
fn env_credential_used_when_no_explicit() {
    let r = resolve_credential(None, Some("env".to_string()));
    assert_eq!(used(r), Some("env".to_string()));
}

#[test]
fn interactive_only_when_both_absent() {
    let r = resolve_credential(None, None);
    assert!(matches!(r, CredentialChoice::AcquireInteractively));
}

#[test]
fn session_cookie_is_formatted_as_header() {
    let cs = pairs(&[("other", "1"), ("_zenn_session", "abc"), ("_zenn_session", "later")]);
    assert_eq!(session_cookie_header(&cs).unwrap(), "_zenn_session=abc");
}

#[test]
fn missing_session_cookie() {
    let cs = pairs(&[("other", "1")]);
    assert_eq!(session_cookie_header(&cs), Err(ScrapError::SessionCookieNotFound));
    assert_eq!(session_cookie_header(&Vec::new()), Err(ScrapError::SessionCookieNotFound));
}

#[test]
fn login_happy_path_closes_session() {
    let (s, a) = start_login();
    assert!(matches!(a, LoginAction::Connect(ref u) if u == "http://localhost:9515"));
    let (s, a) = login_step(s, LoginEvent::Done);
    assert!(matches!(a, LoginAction::Navigate(ref u) if u == "https://zenn.dev/sign_in"));
    let (s, a) = login_step(s, LoginEvent::Done);
    assert!(matches!(a, LoginAction::PromptOperator(_)));
    let (s, a) = login_step(s, LoginEvent::Done);
    assert!(matches!(a, LoginAction::Sleep(ms) if ms == SETTLE_MILLIS));
    assert_eq!(SETTLE_MILLIS, 2000);
    let (s, a) = login_step(s, LoginEvent::Done);
    assert!(matches!(a, LoginAction::ReadCookies));
    let (s, a) = login_step(s, LoginEvent::Cookies(pairs(&[("_zenn_session", "tok")])));
    assert!(matches!(a, LoginAction::CloseSession));
    let (s, a) = login_step(s, LoginEvent::Done);
    assert!(matches!(s, LoginState::Finished(_)));
    match a {
        LoginAction::Finish(Ok(h)) => assert_eq!(h, "_zenn_session=tok"),
        _ => panic!("expected a credential"),
    }
}

#[test]
fn login_without_cookie_still_closes() {
    let (s, _) = start_login();
    let (s, _) = login_step(s, LoginEvent::Done);
    let (s, _) = login_step(s, LoginEvent::Done);
    let (s, _) = login_step(s, LoginEvent::Done);
    let (s, _) = login_step(s, LoginEvent::Done);
    let (s, a) = login_step(s, LoginEvent::Cookies(pairs(&[("x", "y")])));
    assert!(matches!(a, LoginAction::CloseSession));
    let (_, a) = login_step(s, LoginEvent::Done);
    assert!(matches!(a, LoginAction::Finish(Err(ScrapError::SessionCookieNotFound))));
}

#[test]
fn login_unreachable_endpoint() {
    let (s, _) = start_login();
    let (s, a) = login_step(s, LoginEvent::Failed);
    assert!(matches!(a, LoginAction::Finish(Err(ScrapError::AutomationUnavailable))));
    assert!(matches!(s, LoginState::Finished(Err(ScrapError::AutomationUnavailable))));
}

#[test]
fn login_failure_after_connect_closes_session() {
    let (s, _) = start_login();
    let (s, _) = login_step(s, LoginEvent::Done);
    let (s, a) = login_step(s, LoginEvent::Failed);
    assert!(matches!(a, LoginAction::CloseSession));
    let (_, a) = login_step(s, LoginEvent::Failed);
    assert!(matches!(a, LoginAction::Finish(Err(ScrapError::TransportError))));
}

#[test]
fn login_failed_close_reports_error() {
    let s = LoginState::Closing(Ok("_zenn_session=t".to_string()));
    let (_, a) = login_step(s, LoginEvent::Failed);
    assert!(matches!(a, LoginAction::Finish(Err(ScrapError::TransportError))));
}
