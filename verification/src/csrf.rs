use vstd::prelude::*;
use crate::session_data::SessionData;

verus! {

// The CSRF guard: a cookie/form double-submit check anchored in the session.
// A mint step parks the fresh token in the session payload under a fixed
// key; a verify-and-consume step accepts a mutating request only when the
// submitted value and the session-held value both pass the cookie token's
// check, and deletes the session entry on acceptance, so each minted token
// is usable exactly once. The caller runs the protected action only on the
// accepted outcome.

/// The fixed key under which the guard parks the minted token inside the
/// session payload.
pub open spec fn spec_token_key() -> Seq<char> {
    "authenticity_token"@
}

fn token_key() -> (r: String)
    ensures
        r@ == spec_token_key(),
{
    String::from_str("authenticity_token")
}

/// The form payload of a protected request: the token value the client
/// submits.
pub struct CsrfProtected {
    authenticity_token: String,
}

impl View for CsrfProtected {
    type V = Seq<char>;

    closed spec fn view(&self) -> Seq<char> {
        self.authenticity_token@
    }
}

impl CsrfProtected {
    pub fn new(authenticity_token: String) -> (r: CsrfProtected)
        ensures
            r@ == authenticity_token@,
    {
        CsrfProtected { authenticity_token }
    }

    /// The submitted token value.
    pub fn authenticity_token(&self) -> (r: &String)
        ensures
            r@ == self@,
    {
        &self.authenticity_token
    }
}

/// How a mutating request fared against the guard.
#[derive(Clone, Copy, Debug, PartialEq, Eq, Structural)]
pub enum CsrfOutcome {
    /// All three values agree; the protected action may run, once.
    Accepted,
    /// The session holds no token: never minted, or already spent.
    TokenMissing,
    /// The submitted value fails the cookie token's check.
    InvalidToken,
    /// The session-held value fails the cookie token's check: the cookie or
    /// the token was altered, or an old pair is being replayed.
    ReplayOrTamper,
}

/// The guard's decision for a session payload and the two verification
/// results: whether the submitted value passed the cookie token's check, and
/// whether the session-held value did.
pub open spec fn spec_check_key(
    m: Map<Seq<char>, Seq<char>>,
    submitted_ok: bool,
    session_ok: bool,
) -> CsrfOutcome {
    if !m.contains_key(spec_token_key()) {
        CsrfOutcome::TokenMissing
    } else if !submitted_ok {
        CsrfOutcome::InvalidToken
    } else if !session_ok {
        CsrfOutcome::ReplayOrTamper
    } else {
        CsrfOutcome::Accepted
    }
}

/// The session payload after the guard ran: the token entry is spent on
/// acceptance and kept on every rejection.
pub open spec fn spec_check_key_after(
    m: Map<Seq<char>, Seq<char>>,
    submitted_ok: bool,
    session_ok: bool,
) -> Map<Seq<char>, Seq<char>> {
    if spec_check_key(m, submitted_ok, session_ok) == CsrfOutcome::Accepted {
        m.remove(spec_token_key())
    } else {
        m
    }
}

/// The mint step: remember the freshly minted token under the fixed key, so
/// the next mutating request can be held against it.
pub fn store_token(session: &mut SessionData, token: String)
    requires
        old(session).wf(),
    ensures
        final(session).wf(),
        final(session)@ == old(session)@.insert(spec_token_key(), token@),
{
    let k = token_key();
    session.insert(k, token);
}

/// The token the session holds, for the caller to run the cookie token's
/// check against.
pub fn session_token<'a>(session: &'a SessionData) -> (r: Option<&'a String>)
    requires
        session.wf(),
    ensures
        match r {
            Some(v) => session@.contains_key(spec_token_key()) && v@ == session@[spec_token_key()],
            None => !session@.contains_key(spec_token_key()),
        },
{
    let k = token_key();
    session.get(&k)
}

/// The verify-and-consume step. The caller hands in the two verification
/// results; the guard decides, and spends the session-held token exactly on
/// acceptance. Only the accepted outcome may run the protected action.
pub fn check_key(session: &mut SessionData, submitted_ok: bool, session_ok: bool) -> (r:
    CsrfOutcome)
    requires
        old(session).wf(),
    ensures
        final(session).wf(),
        r == spec_check_key(old(session)@, submitted_ok, session_ok),
        final(session)@ == spec_check_key_after(old(session)@, submitted_ok, session_ok),
        r == CsrfOutcome::Accepted ==> !final(session)@.contains_key(spec_token_key()),
{
    let k = token_key();
    if session.get(&k).is_none() {
        return CsrfOutcome::TokenMissing;
    }
    if !submitted_ok {
        return CsrfOutcome::InvalidToken;
    }
    if !session_ok {
        return CsrfOutcome::ReplayOrTamper;
    }
    session.remove(&k);
    CsrfOutcome::Accepted
}

/// A minted token is accepted exactly once: after an accepted submission the
/// session-held entry is gone, so a second submission — whatever its
/// verification results — is rejected as missing.
pub proof fn lemma_token_single_use(
    m: Map<Seq<char>, Seq<char>>,
    s1: bool,
    c1: bool,
    s2: bool,
    c2: bool,
)
    requires
        spec_check_key(m, s1, c1) == CsrfOutcome::Accepted,
    ensures
        spec_check_key(spec_check_key_after(m, s1, c1), s2, c2) == CsrfOutcome::TokenMissing,
{
}

} // verus!
