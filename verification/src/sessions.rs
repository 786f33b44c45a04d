//! One-time passwords and sessions, and who sent a request.
//!
//! Times are seconds on a clock that the caller reads.

use vstd::prelude::*;
use crate::access::{Visitor, VisitorView};
use crate::credentials::{bearer_in, bearer_token, extract_group_token, group_token_in, session_token, token_in};
use crate::outside::maybe_text;
use crate::store::TextMap;
use crate::text::{same_text, view_of};

verus! {

/// A one-time password that was sent to an address.
pub struct Password {
    pub code: String,
    /// The time from which on it is worth nothing.
    pub expires: u64,
}

/// A session.
pub struct Session {
    pub email: String,
    /// The time from which on it is over.
    pub expires: u64,
}

/// The passwords that were sent and the sessions that were opened.
pub struct AuthStore {
    /// The last password sent to each address.
    pub passwords: TextMap<Password>,
    /// The sessions, by token.
    pub sessions: TextMap<Session>,
}

/// What an [`AuthStore`] holds.
pub struct AuthView {
    pub passwords: Map<Seq<char>, (Seq<char>, u64)>,
    pub sessions: Map<Seq<char>, (Seq<char>, u64)>,
}

impl View for AuthStore {
    type V = AuthView;

    open spec fn view(&self) -> AuthView {
        AuthView {
            passwords: self.passwords@.map_values(|p: Password| (p.code@, p.expires)),
            sessions: self.sessions@.map_values(|s: Session| (s.email@, s.expires)),
        }
    }
}

/// Why a password is rejected.
#[derive(Clone, Copy, Debug, PartialEq, Eq, Structural)]
pub enum OtpError {
    /// None was sent to the address, or it was used.
    Missing,
    /// It is too old.
    Expired,
    /// It is another one.
    Wrong,
}

/// The words for why a password is rejected.
pub open spec fn message_of(error: OtpError) -> Seq<char> {
    match error {
        OtpError::Missing => "no code requested"@,
        OtpError::Expired => "code expired"@,
        OtpError::Wrong => "invalid code"@,
    }
}

impl OtpError {
    /// The words for why a password is rejected.
    pub fn message(&self) -> (text: &'static str)
        ensures
            text@ == message_of(*self),
    {
        match self {
            OtpError::Missing => "no code requested",
            OtpError::Expired => "code expired",
            OtpError::Wrong => "invalid code",
        }
    }
}

/// Why a password is rejected, if it is: it has to be the last one that was sent to
/// the address, and not too old.
pub open spec fn otp_error(auth: AuthView, email: Seq<char>, code: Seq<char>, now: u64) -> Option<OtpError> {
    if !auth.passwords.dom().contains(email) {
        Some(OtpError::Missing)
    } else if auth.passwords[email].1 <= now {
        Some(OtpError::Expired)
    } else if auth.passwords[email].0 != code {
        Some(OtpError::Wrong)
    } else {
        None
    }
}

/// The store once a password was sent to an address.
pub open spec fn password_issued(auth: AuthView, email: Seq<char>, code: Seq<char>, expires: u64) -> AuthView {
    AuthView { passwords: auth.passwords.insert(email, (code, expires)), ..auth }
}

/// The store once the password of an address was used.
pub open spec fn password_used(auth: AuthView, email: Seq<char>) -> AuthView {
    AuthView { passwords: auth.passwords.remove(email), ..auth }
}

/// The store once a session was opened.
pub open spec fn session_opened(auth: AuthView, token: Seq<char>, email: Seq<char>, expires: u64) -> AuthView {
    AuthView { sessions: auth.sessions.insert(token, (email, expires)), ..auth }
}

/// The store once a session was ended.
pub open spec fn session_ended(auth: AuthView, token: Seq<char>) -> AuthView {
    AuthView { sessions: auth.sessions.remove(token), ..auth }
}

/// The address that a token is a session of.
pub open spec fn session_owner(auth: AuthView, token: Seq<char>, now: u64) -> Option<Seq<char>> {
    if auth.sessions.dom().contains(token) && now < auth.sessions[token].1 {
        Some(auth.sessions[token].0)
    } else {
        None
    }
}

impl AuthStore {
    /// The store without passwords and sessions.
    pub fn new() -> (auth: Self)
        ensures
            auth@.passwords == Map::<Seq<char>, (Seq<char>, u64)>::empty(),
            auth@.sessions == Map::<Seq<char>, (Seq<char>, u64)>::empty(),
    {
        let auth = AuthStore { passwords: TextMap::new(), sessions: TextMap::new() };
        assert(auth@.passwords =~= Map::<Seq<char>, (Seq<char>, u64)>::empty());
        assert(auth@.sessions =~= Map::<Seq<char>, (Seq<char>, u64)>::empty());
        auth
    }

    /// Notes the password that is sent to an address, in place of an earlier one.
    pub fn request_otp(&mut self, email: &str, code: String, expires: u64)
        ensures
            final(self)@ == password_issued(old(self)@, email@, code@, expires),
    {
        let ghost before = self@;
        let ghost written = code@;
        self.passwords.insert(email.to_owned(), Password { code, expires });
        assert(self@.passwords =~= before.passwords.insert(email@, (written, expires)));
        assert(self@.sessions =~= before.sessions);
    }

    /// Uses the password of an address, which is then gone.
    pub fn consume_otp(&mut self, email: &str, code: &str, now: u64) -> (result: Result<(), OtpError>)
        ensures
            match result {
                Ok(()) => otp_error(old(self)@, email@, code@, now) is None && final(self)@ == password_used(
                    old(self)@,
                    email@,
                ),
                Err(error) => otp_error(old(self)@, email@, code@, now) == Some(error) && final(self)@ == old(self)@,
            },
    {
        let ghost before = self@;
        match self.passwords.get(email) {
            None => {
                return Err(OtpError::Missing);
            },
            Some(password) => {
                if password.expires <= now {
                    return Err(OtpError::Expired);
                }
                if !same_text(&password.code, code) {
                    return Err(OtpError::Wrong);
                }
            },
        }
        let _found = self.passwords.remove(email);
        assert(self@.passwords =~= before.passwords.remove(email@));
        assert(self@.sessions =~= before.sessions);
        Ok(())
    }

    /// Opens a session of an address.
    pub fn create_session(&mut self, email: &str, token: String, expires: u64)
        ensures
            final(self)@ == session_opened(old(self)@, token@, email@, expires),
    {
        let ghost before = self@;
        let ghost key = token@;
        self.sessions.insert(token, Session { email: email.to_owned(), expires });
        assert(self@.sessions =~= before.sessions.insert(key, (email@, expires)));
        assert(self@.passwords =~= before.passwords);
    }

    /// The address that a token is a session of.
    pub fn session_email(&self, token: &str, now: u64) -> (email: Option<String>)
        ensures
            maybe_text(email) == session_owner(self@, token@, now),
    {
        match self.sessions.get(token) {
            Some(session) => if now < session.expires {
                Some(session.email.clone())
            } else {
                None
            },
            None => None,
        }
    }

    /// Ends a session.
    pub fn logout(&mut self, token: &str)
        ensures
            final(self)@ == session_ended(old(self)@, token@),
    {
        let ghost before = self@;
        let _found = self.sessions.remove(token);
        assert(self@.sessions =~= before.sessions.remove(token@));
        assert(self@.passwords =~= before.passwords);
    }
}

/// The address of the session whose token an `Authorization` header carries.
pub open spec fn identity_in(authorization: Option<Seq<char>>, auth: AuthView, now: u64) -> Option<Seq<char>> {
    match token_in(authorization) {
        Some(token) => session_owner(auth, token, now),
        None => None,
    }
}

/// The address of the session whose token an `Authorization` header carries.
pub fn session_identity(authorization: Option<&str>, auth: &AuthStore, now: u64) -> (email: Option<String>)
    ensures
        maybe_text(email) == identity_in(view_of(authorization), auth@, now),
{
    match session_token(authorization) {
        Some(token) => auth.session_email(&token, now),
        None => None,
    }
}

/// Who sent a request: whose session its `Authorization` header shows, and the group
/// token in its query or header.
pub fn identify(
    authorization: Option<&str>,
    query: Option<&str>,
    group_header: Option<&str>,
    auth: &AuthStore,
    now: u64,
) -> (visitor: Visitor)
    ensures
        visitor@ == (VisitorView {
            identity: identity_in(view_of(authorization), auth@, now),
            group_token: group_token_in(view_of(query), view_of(group_header)),
        }),
{
    Visitor {
        identity: session_identity(authorization, auth, now),
        group_token: extract_group_token(query, group_header),
    }
}

/// The store once a request to log out was handled.
pub open spec fn logged_out_by(authorization: Option<Seq<char>>, auth: AuthView) -> AuthView {
    match bearer_in(authorization) {
        Some(token) => session_ended(auth, token),
        None => auth,
    }
}

/// Ends the session whose token stands after `Bearer`.
pub fn end_session(authorization: Option<&str>, auth: &mut AuthStore)
    ensures
        final(auth)@ == logged_out_by(view_of(authorization), old(auth)@),
{
    match bearer_token(authorization) {
        Some(token) => auth.logout(&token),
        None => {},
    }
}

/// A password works once: after it was used, neither it nor any other is accepted
/// for the address until a new one is sent.
pub proof fn law_password_works_once(auth: AuthView, email: Seq<char>, code: Seq<char>, now: u64)
    ensures
        otp_error(password_used(auth, email), email, code, now) == Some(OtpError::Missing),
{
}

/// Of the passwords that were sent to an address only the last one is accepted, and
/// only until it expires; the other addresses are not affected.
pub proof fn law_last_password_counts(
    auth: AuthView,
    email: Seq<char>,
    sent: Seq<char>,
    expires: u64,
    other: Seq<char>,
    code: Seq<char>,
    now: u64,
)
    ensures
        otp_error(password_issued(auth, email, sent, expires), email, code, now) is None <==> code == sent && now
            < expires,
        other != email ==> otp_error(password_issued(auth, email, sent, expires), other, code, now) == otp_error(
            auth,
            other,
            code,
            now,
        ),
{
}

/// A session identifies the address that it was opened for, until it expires.
pub proof fn law_session_identifies_its_owner(
    auth: AuthView,
    token: Seq<char>,
    email: Seq<char>,
    expires: u64,
    now: u64,
)
    ensures
        identity_in(Some("Bearer "@ + token), session_opened(auth, token, email, expires), now) == (if now < expires {
            Some(email)
        } else {
            None
        }),
{
    let header = "Bearer "@ + token;
    assert("Bearer "@.is_prefix_of(header));
    assert(header.skip("Bearer "@.len() as int) =~= token);
}

/// After a log-out the token identifies nobody, and every other session goes on.
pub proof fn law_log_out_ends_the_session(auth: AuthView, token: Seq<char>, other: Seq<char>, now: u64)
    ensures
        identity_in(Some("Bearer "@ + token), logged_out_by(Some("Bearer "@ + token), auth), now) is None,
        other != token ==> session_owner(logged_out_by(Some("Bearer "@ + token), auth), other, now) == session_owner(
            auth,
            other,
            now,
        ),
{
    let header = "Bearer "@ + token;
    assert("Bearer "@.is_prefix_of(header));
    assert(header.skip("Bearer "@.len() as int) =~= token);
}

/// A rejected password is rejected for the reason that holds: none was sent to the
/// address, or the one that was sent has expired, or it is another one.
pub proof fn law_reasons_of_rejection(auth: AuthView, email: Seq<char>, code: Seq<char>, now: u64)
    ensures
        otp_error(auth, email, code, now) == Some(OtpError::Missing) <==> !auth.passwords.dom().contains(email),
        otp_error(auth, email, code, now) == Some(OtpError::Expired) <==> auth.passwords.dom().contains(email)
            && auth.passwords[email].1 <= now,
        otp_error(auth, email, code, now) == Some(OtpError::Wrong) <==> auth.passwords.dom().contains(email) && now
            < auth.passwords[email].1 && auth.passwords[email].0 != code,
{
}

/// Sending and using passwords leaves sessions as they are, and opening and ending
/// sessions leaves passwords as they are; each touches one address or one token.
pub proof fn law_steps_are_confined(
    auth: AuthView,
    email: Seq<char>,
    code: Seq<char>,
    token: Seq<char>,
    other: Seq<char>,
    expires: u64,
    now: u64,
)
    ensures
        password_issued(auth, email, code, expires).sessions == auth.sessions,
        password_used(auth, email).sessions == auth.sessions,
        session_opened(auth, token, email, expires).passwords == auth.passwords,
        session_ended(auth, token).passwords == auth.passwords,
        other != email ==> otp_error(password_used(auth, email), other, code, now) == otp_error(auth, other, code, now),
        other != token ==> session_owner(session_opened(auth, token, email, expires), other, now) == session_owner(
            auth,
            other,
            now,
        ),
        session_owner(session_ended(auth, token), token, now) is None,
        session_owner(session_opened(auth, token, email, expires), token, now) is Some <==> now < expires,
{
}

/// Who sent a request is the owner of the session whose token it carries, and nobody
/// where it carries none or the session is over.
pub proof fn law_identity_is_the_owner(authorization: Option<Seq<char>>, auth: AuthView, now: u64)
    ensures
        token_in(authorization) is None ==> identity_in(authorization, auth, now) is None,
        token_in(authorization) matches Some(token) ==> ({
            let open = auth.sessions.dom().contains(token) && now < auth.sessions[token].1;
            &&& open ==> identity_in(authorization, auth, now) == Some(auth.sessions[token].0)
            &&& !open ==> identity_in(authorization, auth, now) is None
        }),
{
}

/// What the store says is what its fields hold.
pub proof fn law_store_shows_its_fields(auth: AuthStore, key: Seq<char>)
    ensures
        auth@.passwords.dom().contains(key) <==> auth.passwords@.dom().contains(key),
        auth.passwords@.dom().contains(key) ==> auth@.passwords[key] == (
            auth.passwords@[key].code@,
            auth.passwords@[key].expires,
        ),
        auth@.sessions.dom().contains(key) <==> auth.sessions@.dom().contains(key),
        auth.sessions@.dom().contains(key) ==> auth@.sessions[key] == (
            auth.sessions@[key].email@,
            auth.sessions@[key].expires,
        ),
{
}

/// The words for why a password is rejected.
pub proof fn law_words_of_rejection()
    ensures
        message_of(OtpError::Missing) == "no code requested"@,
        message_of(OtpError::Expired) == "code expired"@,
        message_of(OtpError::Wrong) == "invalid code"@,
{
}

} // verus!
