//! One-time passwords, sessions, and who sent a request.

use rgit::login::{logout, verify_otp};
use rgit::reply::{Answer, Body};
use rgit::sessions::{end_session, identify, session_identity, AuthStore, OtpError};

fn text_of(answer: Answer) -> (u16, String) {
    match answer {
        Answer::Response(r) => match r.body {
            Body::Text(text) => (r.status, text),
            _ => panic!("no text"),
        },
        Answer::Failure { .. } => panic!("a failure"),
    }
}

fn json_of(answer: Answer) -> (u16, String) {
    match answer {
        Answer::Response(r) => {
            assert_eq!(r.content_type.as_deref(), Some("application/json"));
            match r.body {
                Body::Bytes(json) => (r.status, String::from_utf8(json).unwrap()),
                _ => panic!("no bytes"),
            }
        }
        Answer::Failure { .. } => panic!("a failure"),
    }
}

fn tok(text: &str) -> String {
    text.to_string()
}

#[test]
fn new_store_is_empty() {
    let mut auth = AuthStore::new();
    assert_eq!(auth.session_email("", 0), None);
    assert_eq!(auth.consume_otp("a@b", "", 0), Err(OtpError::Missing));
}

#[test]
fn password_works_once() {
    let mut auth = AuthStore::new();
    auth.request_otp("a@b", tok("123456"), 100);
    assert_eq!(auth.consume_otp("a@b", "123456", 99), Ok(()));
    assert_eq!(auth.consume_otp("a@b", "123456", 99), Err(OtpError::Missing));
}

#[test]
fn passwords_that_are_rejected() {
    let mut auth = AuthStore::new();
    auth.request_otp("a@b", tok("123456"), 100);
    assert_eq!(auth.consume_otp("c@d", "123456", 1), Err(OtpError::Missing));
    assert_eq!(auth.consume_otp("a@b", "000000", 1), Err(OtpError::Wrong));
    assert_eq!(auth.consume_otp("a@b", "123456", 100), Err(OtpError::Expired));
    assert_eq!(auth.consume_otp("a@b", "123456", 1), Ok(()));
}

#[test]
fn last_password_counts() {
    let mut auth = AuthStore::new();
    auth.request_otp("a@b", tok("111111"), 100);
    auth.request_otp("c@d", tok("333333"), 100);
    auth.request_otp("a@b", tok("222222"), 100);
    assert_eq!(auth.consume_otp("a@b", "111111", 1), Err(OtpError::Wrong));
    assert_eq!(auth.consume_otp("a@b", "222222", 1), Ok(()));
    assert_eq!(auth.consume_otp("c@d", "333333", 1), Ok(()));
}

#[test]
fn reasons_in_words() {
    assert_eq!(OtpError::Missing.message(), "no code requested");
    assert_eq!(OtpError::Expired.message(), "code expired");
    assert_eq!(OtpError::Wrong.message(), "invalid code");
}

#[test]
fn log_in_identifies_until_the_session_expires() {
    let mut auth = AuthStore::new();
    auth.request_otp("a@b", tok("123456"), 100);
    assert_eq!(text_of(verify_otp(&mut auth, "a@b", "000000", 1, tok("t0"), 500)), (403, tok("invalid code")));
    assert_eq!(session_identity(Some("Bearer t0"), &auth, 1), None);
    let opened = verify_otp(&mut auth, "a@b", "123456", 1, tok("t1"), 500);
    assert_eq!(json_of(opened), (200, tok(r#"{"token":"t1"}"#)));
    assert_eq!(session_identity(Some("Bearer t1"), &auth, 499).as_deref(), Some("a@b"));
    assert_eq!(session_identity(Some("Basic eDp0MQ=="), &auth, 499).as_deref(), Some("a@b"));
    assert_eq!(session_identity(Some("Bearer t1"), &auth, 500), None);
    assert_eq!(session_identity(Some("Bearer t2"), &auth, 1), None);
    assert_eq!(session_identity(None, &auth, 1), None);
    assert_eq!(text_of(verify_otp(&mut auth, "a@b", "123456", 1, tok("t3"), 500)), (403, tok("no code requested")));
}

#[test]
fn log_out_ends_one_session() {
    let mut auth = AuthStore::new();
    auth.create_session("a@b", tok("t1"), 500);
    auth.create_session("c@d", tok("t2"), 500);
    assert_eq!(text_of(logout(Some("Basic eDp0MQ=="), &mut auth)), (200, tok("logged out")));
    assert_eq!(session_identity(Some("Bearer t1"), &auth, 1).as_deref(), Some("a@b"));
    assert_eq!(text_of(logout(Some("Bearer t1"), &mut auth)), (200, tok("logged out")));
    assert_eq!(session_identity(Some("Bearer t1"), &auth, 1), None);
    assert_eq!(session_identity(Some("Bearer t2"), &auth, 1).as_deref(), Some("c@d"));
    end_session(None, &mut auth);
    end_session(Some("Bearer t2"), &mut auth);
    assert_eq!(session_identity(Some("Bearer t2"), &auth, 1), None);
}

#[test]
fn visitors() {
    let mut auth = AuthStore::new();
    auth.create_session("a@b", tok("t1"), 500);
    let visitor = identify(Some("Bearer t1"), Some("token=g%21"), Some("h"), &auth, 1);
    assert_eq!(visitor.identity.as_deref(), Some("a@b"));
    assert_eq!(visitor.group_token.as_deref(), Some("g!"));
    let visitor = identify(None, None, Some("h"), &auth, 1);
    assert_eq!(visitor.identity, None);
    assert_eq!(visitor.group_token.as_deref(), Some("h"));
}
