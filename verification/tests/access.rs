//! Who may do what, and what a request shows of who sent it.

use base64::Engine;
use rgit::access::{
    check_access, git_access_error, is_allowed, is_allowed_for_git, require_admin_session, AccessConfig,
    AccountPermission, GroupInfo, GroupStore, Mode, Need, Settings, Visitor,
};
use rgit::credentials::{basic_password, bearer_token, extract_group_token, find_query_value, session_token};
use rgit::reply::{Answer, Body};
use rgit::store::TextMap;

const NEEDS: [Need; 3] = [Need::View, Need::Download, Need::Push];

fn settings() -> Settings {
    Settings { admin_email: "admin@example.com".to_string(), accounts_locked: true }
}

fn visitor(identity: Option<&str>, group_token: Option<&str>) -> Visitor {
    Visitor { identity: identity.map(str::to_string), group_token: group_token.map(str::to_string) }
}

fn config(mode: Mode, group: Option<&str>, allow_view: bool, allow_download: bool) -> AccessConfig {
    AccessConfig { mode, group: group.map(str::to_string), allow_view, allow_download, accounts: TextMap::new() }
}

fn groups(list: &[(&str, &str)]) -> GroupStore {
    let mut groups = TextMap::new();
    for (name, token) in list {
        groups.insert(name.to_string(), GroupInfo { token: token.to_string() });
    }
    GroupStore { groups }
}

fn failure_of(answer: Answer) -> (u16, String) {
    match answer {
        Answer::Failure { status, message } => (status, message),
        Answer::Response(_) => panic!("a response"),
    }
}

#[test]
fn administrator_may_do_everything() {
    let private = config(Mode::Private, None, false, false);
    for need in NEEDS {
        let admin = visitor(Some("admin@example.com"), None);
        assert!(is_allowed_for_git(&admin, &settings(), &private, &groups(&[]), need));
        assert!(check_access(&admin, &settings(), &private, &groups(&[]), need).is_ok());
        assert!(git_access_error(&admin, &settings(), &private, &groups(&[]), need, None).is_none());
    }
    assert!(require_admin_session(&visitor(Some("admin@example.com"), None), &settings()).is_ok());
}

#[test]
fn others_are_no_administrators() {
    for identity in [None, Some("someone@example.com"), Some("")] {
        let refusal = require_admin_session(&visitor(identity, None), &settings()).unwrap_err();
        assert_eq!(failure_of(refusal), (401, "admin login required".to_string()));
    }
}

#[test]
fn private_repository_is_closed() {
    let private = config(Mode::Private, None, true, true);
    for need in NEEDS {
        assert!(!is_allowed(&private, need, &groups(&[("g", "t")]), Some("t"), Some("a@b")));
    }
    let refusal =
        check_access(&visitor(None, None), &settings(), &private, &groups(&[]), Need::View).unwrap_err();
    assert_eq!(failure_of(refusal), (403, "access denied".to_string()));
}

#[test]
fn public_repository_opens_what_it_allows() {
    for allow_view in [true, false] {
        for allow_download in [true, false] {
            let public = config(Mode::Public, None, allow_view, allow_download);
            assert_eq!(is_allowed(&public, Need::View, &groups(&[]), None, None), allow_view);
            assert_eq!(is_allowed(&public, Need::Download, &groups(&[]), None, None), allow_download);
            assert!(!is_allowed(&public, Need::Push, &groups(&[]), None, None));
        }
    }
}

#[test]
fn group_token_opens_its_group() {
    let shared = config(Mode::Group, Some("team"), true, false);
    let known = groups(&[("team", "secret"), ("class", "other")]);
    assert!(is_allowed(&shared, Need::View, &known, Some("secret"), None));
    assert!(!is_allowed(&shared, Need::Download, &known, Some("secret"), None));
    assert!(!is_allowed(&shared, Need::Push, &known, Some("secret"), None));
    assert!(!is_allowed(&shared, Need::View, &known, Some("other"), None));
    assert!(!is_allowed(&shared, Need::View, &known, None, None));
    assert!(!is_allowed(&config(Mode::Group, None, true, true), Need::View, &known, Some("secret"), None));
}

#[test]
fn deleted_group_closes_the_repository() {
    let shared = config(Mode::Group, Some("team"), true, true);
    let mut known = groups(&[("team", "secret")]);
    assert!(is_allowed(&shared, Need::View, &known, Some("secret"), None));
    assert!(known.groups.remove("team"));
    for need in NEEDS {
        assert!(!is_allowed(&shared, need, &known, Some("secret"), None));
        assert!(!is_allowed(&shared, need, &known, None, None));
    }
}

#[test]
fn accounts_are_granted_separately() {
    for view in [true, false] {
        for download in [true, false] {
            for push in [true, false] {
                let mut private = config(Mode::Private, None, true, true);
                private.accounts.insert(
                    "a@b".to_string(),
                    AccountPermission { allow_view: view, allow_download: download, allow_push: push },
                );
                assert_eq!(is_allowed(&private, Need::View, &groups(&[]), None, Some("a@b")), view);
                assert_eq!(is_allowed(&private, Need::Download, &groups(&[]), None, Some("a@b")), download);
                assert_eq!(is_allowed(&private, Need::Push, &groups(&[]), None, Some("a@b")), push);
                for need in NEEDS {
                    assert!(!is_allowed(&private, need, &groups(&[]), None, Some("c@d")));
                    assert!(!is_allowed(&private, need, &groups(&[]), None, None));
                }
            }
        }
    }
}

#[test]
fn mode_does_not_depend_on_accounts() {
    let mut public = config(Mode::Public, None, true, false);
    public.accounts.insert(
        "a@b".to_string(),
        AccountPermission { allow_view: false, allow_download: true, allow_push: false },
    );
    assert!(is_allowed(&public, Need::View, &groups(&[]), None, Some("a@b")));
    assert!(is_allowed(&public, Need::Download, &groups(&[]), None, Some("a@b")));
    assert!(is_allowed(&public, Need::View, &groups(&[]), None, None));
    assert!(!is_allowed(&public, Need::Download, &groups(&[]), None, None));
}

#[test]
fn git_client_is_asked_for_credentials_once() {
    let private = config(Mode::Private, None, true, true);
    let nobody = visitor(None, None);
    match git_access_error(&nobody, &settings(), &private, &groups(&[]), Need::Download, None) {
        Some(Answer::Response(r)) => {
            assert_eq!(r.status, 401);
            assert_eq!(r.headers, [("WWW-Authenticate".to_string(), "Basic realm=\"RGit\"".to_string())]);
            assert!(matches!(r.body, Body::Text(text) if text == "authentication required"));
        }
        _ => panic!("no response"),
    }
    match git_access_error(&nobody, &settings(), &private, &groups(&[]), Need::Download, Some("Basic x")) {
        Some(Answer::Response(r)) => {
            assert_eq!(r.status, 403);
            assert!(r.headers.is_empty());
            assert!(matches!(r.body, Body::Text(text) if text == "access denied"));
        }
        _ => panic!("no response"),
    }
}

#[test]
fn bearer_and_basic_carry_the_same_token() {
    let encoded = base64::engine::general_purpose::STANDARD.encode("me@example.com:tok:en");
    assert_eq!(session_token(Some("Bearer tok:en")).as_deref(), Some("tok:en"));
    assert_eq!(session_token(Some(&format!("Basic {encoded}"))).as_deref(), Some("tok:en"));
    assert_eq!(session_token(Some("Basic bWVAZXhhbXBsZS5jb206dG9rOmVu")).as_deref(), Some("tok:en"));
}

#[test]
fn headers_without_a_token() {
    assert_eq!(session_token(None), None);
    for header in ["", "Bearer", "bearer x", "Basic", "Basic ", "Basic !!!!", "Digest x", " Bearer x"] {
        assert_eq!(session_token(Some(header)), None, "{header}");
    }
    let no_colon = base64::engine::general_purpose::STANDARD.encode("nocolon");
    assert_eq!(session_token(Some(&format!("Basic {no_colon}"))), None);
    let no_text = base64::engine::general_purpose::STANDARD.encode([0xff, b':', b'x']);
    assert_eq!(session_token(Some(&format!("Basic {no_text}"))), None);
    let no_padding = encoded_without_padding("a:bc");
    assert_eq!(session_token(Some(&format!("Basic {no_padding}"))), None);
}

fn encoded_without_padding(text: &str) -> String {
    base64::engine::general_purpose::STANDARD.encode(text).trim_end_matches('=').to_string()
}

#[test]
fn passwords_in_decoded_credentials() {
    assert_eq!(basic_password(Some(b"me:token".to_vec())).as_deref(), Some("token"));
    assert_eq!(basic_password(Some(b":".to_vec())).as_deref(), Some(""));
    assert_eq!(basic_password(Some(b"me".to_vec())), None);
    assert_eq!(basic_password(Some(vec![0xff, b':'])), None);
    assert_eq!(basic_password(None), None);
}

#[test]
fn log_out_takes_bearer_tokens_only() {
    assert_eq!(bearer_token(Some("Bearer abc")).as_deref(), Some("abc"));
    assert_eq!(bearer_token(Some("Bearer ")).as_deref(), Some(""));
    assert_eq!(bearer_token(Some("Basic YTpi")), None);
    assert_eq!(bearer_token(None), None);
}

#[test]
fn group_token_of_a_request() {
    assert_eq!(extract_group_token(Some("token=a%2Fb"), Some("h")).as_deref(), Some("a/b"));
    assert_eq!(extract_group_token(Some("x=1&token=t&token=u"), None).as_deref(), Some("t"));
    assert_eq!(extract_group_token(Some("token="), Some("h")).as_deref(), Some(""));
    assert_eq!(extract_group_token(Some("xtoken=t"), Some("h")).as_deref(), Some("h"));
    assert_eq!(extract_group_token(Some(""), None), None);
    assert_eq!(extract_group_token(None, Some("h")).as_deref(), Some("h"));
    assert_eq!(extract_group_token(None, None), None);
}

#[test]
fn query_parameters() {
    assert_eq!(find_query_value("a=1&b=2&b=3", "b=").as_deref(), Some("2"));
    assert_eq!(find_query_value("a=1", "b="), None);
    assert_eq!(find_query_value("", "b="), None);
}
