use anthere::csrf::{check_key, session_token, store_token, CsrfOutcome, CsrfProtected};
use anthere::session_data::SessionData;

#[test]
fn token_accepted_exactly_once() {
    let mut session = SessionData::new();
    store_token(&mut session, "tok-1".to_string());
    assert_eq!(check_key(&mut session, true, true), CsrfOutcome::Accepted);
    // The session-held token was spent: the same submission now fails.
    assert_eq!(check_key(&mut session, true, true), CsrfOutcome::TokenMissing);
}

#[test]
fn missing_token_is_rejected() {
    let mut session = SessionData::new();
    assert_eq!(check_key(&mut session, true, true), CsrfOutcome::TokenMissing);
}

#[test]
fn invalid_submitted_token_is_rejected_and_keeps_the_session_token() {
    let mut session = SessionData::new();
    store_token(&mut session, "tok-2".to_string());
    assert_eq!(check_key(&mut session, false, true), CsrfOutcome::InvalidToken);
    // The rejection did not spend the token: a valid retry still works.
    assert_eq!(check_key(&mut session, true, true), CsrfOutcome::Accepted);
}

#[test]
fn mismatched_session_token_is_flagged_as_replay_or_tamper() {
    let mut session = SessionData::new();
    store_token(&mut session, "tok-3".to_string());
    assert_eq!(check_key(&mut session, true, false), CsrfOutcome::ReplayOrTamper);
}

#[test]
fn session_token_reads_back_the_minted_value() {
    let mut session = SessionData::new();
    assert!(session_token(&session).is_none());
    store_token(&mut session, "tok-4".to_string());
    assert_eq!(session_token(&session), Some(&"tok-4".to_string()));
}

#[test]
fn minting_again_replaces_the_held_token() {
    let mut session = SessionData::new();
    store_token(&mut session, "old".to_string());
    store_token(&mut session, "new".to_string());
    assert_eq!(session_token(&session), Some(&"new".to_string()));
}

#[test]
fn csrf_protected_carries_the_submitted_value() {
    let payload = CsrfProtected::new("submitted".to_string());
    assert_eq!(payload.authenticity_token(), &"submitted".to_string());
}
