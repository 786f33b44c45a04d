//! Logging in with a one-time password, and logging out.

use vstd::prelude::*;
use crate::access::{Settings, SettingsView};
use crate::accounts::{AccountStore, AccountsView, account_added, account_removed};
use crate::reply::{Answer, AnswerView, object_response, object_view, pairs, reads_fields, response, response_view};
use crate::sessions::{AuthStore, AuthView, end_session, identity_in, law_session_identifies_its_owner, logged_out_by,
    message_of, otp_error, password_used, session_opened};
use crate::text::{same_text, trim, trimmed, view_of};

verus! {

/// An address that may log in: the administrator's, or that of an account.
pub open spec fn may_log_in(settings: SettingsView, store: AccountsView, email: Seq<char>) -> bool {
    email == settings.admin_email || store.emails.contains(email)
}

/// The answer where no password is sent: the address may not log in, or the server
/// cannot send mail.
pub open spec fn otp_refusal(
    settings: SettingsView,
    store: AccountsView,
    mail_configured: bool,
    email: Seq<char>,
) -> Option<AnswerView> {
    if !may_log_in(settings, store, trimmed(email)) {
        Some(response_view(403, "email not registered"@))
    } else if !mail_configured {
        Some(response_view(503, "SMTP not configured"@))
    } else {
        None
    }
}

/// The address that a one-time password is to be sent to.
pub fn request_otp(settings: &Settings, store: &AccountStore, mail_configured: bool, email: &str) -> (result: Result<
    String,
    Answer,
>)
    ensures
        match result {
            Ok(address) => otp_refusal(settings@, store@, mail_configured, email@) == None::<AnswerView> && address@
                == trimmed(email@),
            Err(answer) => otp_refusal(settings@, store@, mail_configured, email@) == Some(answer@),
        },
{
    let address = trim(email);
    if !same_text(&address, &settings.admin_email) && !store.emails.contains(&address) {
        return Err(response(403, "email not registered"));
    }
    if !mail_configured {
        return Err(response(503, "SMTP not configured"));
    }
    Ok(address)
}

/// The answer once the mail with the password was sent, or could not be.
pub fn otp_sent(sent: bool) -> (answer: Answer)
    ensures
        answer@ == (if sent {
            response_view(200, "otp sent"@)
        } else {
            response_view(502, "failed to send mail"@)
        }),
{
    if sent {
        response(200, "otp sent")
    } else {
        response(502, "failed to send mail")
    }
}

/// The answer to a password: the token of the session that it opens, or why it is
/// rejected.
pub open spec fn verify_answer(
    auth: AuthView,
    email: Seq<char>,
    code: Seq<char>,
    now: u64,
    token: Seq<char>,
) -> AnswerView {
    match otp_error(auth, email, code, now) {
        Some(error) => response_view(403, message_of(error)),
        None => object_view(200, seq![("token"@, token)]),
    }
}

/// The store once a password was handled: one that is accepted is used up and opens a
/// session.
pub open spec fn verified(
    auth: AuthView,
    email: Seq<char>,
    code: Seq<char>,
    now: u64,
    token: Seq<char>,
    expires: u64,
) -> AuthView {
    match otp_error(auth, email, code, now) {
        Some(_) => auth,
        None => session_opened(password_used(auth, email), token, email, expires),
    }
}

/// Opens a session under a new token for an address that shows its password.
pub fn verify_otp(auth: &mut AuthStore, email: &str, code: &str, now: u64, token: String, expires: u64) -> (answer:
    Answer)
    ensures
        answer@ == verify_answer(old(auth)@, email@, code@, now, token@),
        final(auth)@ == verified(old(auth)@, email@, code@, now, token@, expires),
        otp_error(old(auth)@, email@, code@, now) is None ==> reads_fields(seq![("token"@, token@)]),
{
    match auth.consume_otp(email, code, now) {
        Ok(()) => {
            auth.create_session(email, token.clone(), expires);
            let ghost shown = seq![("token"@, token@)];
            let mut fields: Vec<(String, String)> = Vec::new();
            fields.push(("token".to_owned(), token));
            assert(pairs(fields@) =~= shown);
            object_response(200, &fields)
        },
        Err(error) => response(403, error.message()),
    }
}

/// Ends the session whose token stands after `Bearer`.
pub fn logout(authorization: Option<&str>, auth: &mut AuthStore) -> (answer: Answer)
    ensures
        answer@ == response_view(200, "logged out"@),
        final(auth)@ == logged_out_by(view_of(authorization), old(auth)@),
{
    end_session(authorization, auth);
    response(200, "logged out")
}

/// An address that was made an account is sent a password as soon as the server can
/// send mail.
pub proof fn law_new_account_gets_a_password(settings: SettingsView, store: AccountsView, email: Seq<char>)
    ensures
        otp_refusal(settings, account_added(store, trimmed(email)), true, email) is None,
{
}

/// Nobody but the administrator and the accounts is ever sent a password.
pub proof fn law_only_accounts_get_passwords(
    settings: SettingsView,
    store: AccountsView,
    mail_configured: bool,
    email: Seq<char>,
)
    requires
        otp_refusal(settings, store, mail_configured, email) is None,
    ensures
        trimmed(email) == settings.admin_email || store.emails.contains(trimmed(email)),
{
}

/// Who shows the password of an address is identified as that address afterwards,
/// until the session expires.
pub proof fn law_log_in_identifies(
    auth: AuthView,
    email: Seq<char>,
    code: Seq<char>,
    now: u64,
    token: Seq<char>,
    expires: u64,
    later: u64,
)
    requires
        otp_error(auth, email, code, now) is None,
        later < expires,
    ensures
        identity_in(Some("Bearer "@ + token), verified(auth, email, code, now, token, expires), later) == Some(email),
{
    law_session_identifies_its_owner(password_used(auth, email), token, email, expires, later);
}

/// A password that is rejected opens nothing.
pub proof fn law_rejected_password_opens_nothing(
    auth: AuthView,
    email: Seq<char>,
    code: Seq<char>,
    now: u64,
    token: Seq<char>,
    expires: u64,
)
    requires
        otp_error(auth, email, code, now) is Some,
    ensures
        verified(auth, email, code, now, token, expires) == auth,
{
}

/// No password is sent to an address once its account is removed, unless it is the
/// administrator's.
pub proof fn law_removed_account_gets_no_password(
    settings: SettingsView,
    store: AccountsView,
    mail_configured: bool,
    email: Seq<char>,
)
    requires
        trimmed(email) != settings.admin_email,
    ensures
        otp_refusal(settings, account_removed(store, trimmed(email)), mail_configured, email) == Some(
            response_view(403, "email not registered"@),
        ),
{
}

/// A password is sent to the administrator and to accounts, where the server can send
/// mail; an address that may not log in is told so first.
pub proof fn law_who_is_sent_a_password(
    settings: SettingsView,
    store: AccountsView,
    mail_configured: bool,
    email: Seq<char>,
)
    ensures
        ({
            let known = trimmed(email) == settings.admin_email || store.emails.contains(trimmed(email));
            &&& otp_refusal(settings, store, mail_configured, email) is None <==> known && mail_configured
            &&& !known ==> (otp_refusal(settings, store, mail_configured, email) matches Some(answer)
                && crate::reply::says(answer, 403, "email not registered"@))
            &&& known && !mail_configured ==> (otp_refusal(settings, store, mail_configured, email) matches Some(answer)
                && crate::reply::says(answer, 503, "SMTP not configured"@))
        }),
        may_log_in(settings, store, email) <==> email == settings.admin_email || store.emails.contains(email),
{
}

/// A password is accepted if and only if it is the one that was sent to the address and
/// has not expired; then the new token is sent and is a session of the address, the
/// password is gone, and nothing else changes. Otherwise the answer is a refusal.
pub proof fn law_what_a_password_does(
    auth: AuthView,
    email: Seq<char>,
    code: Seq<char>,
    now: u64,
    token: Seq<char>,
    expires: u64,
)
    ensures
        ({
            let good = auth.passwords.dom().contains(email) && auth.passwords[email].0 == code && now
                < auth.passwords[email].1;
            let after = verified(auth, email, code, now, token, expires);
            &&& good ==> (verify_answer(auth, email, code, now, token) matches AnswerView::Response(r) && r.status == 200
                && r.content_type == Some("application/json"@) && r.headers.len() == 0 && r.body
                == crate::reply::BodyView::Bytes(crate::outside::json_object(seq![("token"@, token)])))
            &&& good ==> after.sessions == auth.sessions.insert(token, (email, expires)) && after.passwords
                == auth.passwords.remove(email)
            &&& !good ==> (verify_answer(auth, email, code, now, token) matches AnswerView::Response(r) && r.status == 403)
            &&& !good ==> after == auth
        }),
{
}

} // verus!
