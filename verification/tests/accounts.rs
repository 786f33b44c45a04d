//! Accounts, requests for access, decisions, groups and logging in.

use rgit::access::{
    is_allowed, AccessConfig, AccountPermission, GroupInfo, GroupStore, Mode, Need, Settings, Visitor,
};
use rgit::accounts::{
    account_may_create, accounts_locked, add_account, list_access_requests, list_accounts, remove_account,
    request_access, set_create_permission, AccessRequest, AccountStore,
};
use rgit::decisions::{decide_access_request, AfterAccounts, AfterLookup, Ruling};
use rgit::groups::{create_group, delete_group, get_access, list_groups, set_access, settings_dir};
use rgit::login::{otp_sent, request_otp};
use rgit::reply::{Answer, Body};
use rgit::store::{TextMap, TextSet};

const ADMIN: &str = "admin@example.com";
const LOCKED: &str = "account registration is currently restricted to the administrator email only";

fn settings(accounts_locked: bool) -> Settings {
    Settings { admin_email: ADMIN.to_string(), accounts_locked }
}

fn visitor(identity: Option<&str>) -> Visitor {
    Visitor { identity: identity.map(str::to_string), group_token: None }
}

fn admin() -> Visitor {
    visitor(Some(ADMIN))
}

fn set_of(list: &[&str]) -> TextSet {
    let mut set = TextSet::new();
    for text in list {
        set.insert(text.to_string());
    }
    set
}

fn store(emails: &[&str], creators: &[&str], requests: &[(&str, &str, Option<&str>)]) -> AccountStore {
    AccountStore {
        emails: set_of(emails),
        can_create_repos: set_of(creators),
        pending_requests: requests
            .iter()
            .map(|(id, email, repo)| AccessRequest {
                id: id.to_string(),
                email: email.to_string(),
                repo: repo.map(str::to_string),
                message: None,
                is_create_repo_request: false,
            })
            .collect(),
    }
}

fn text_of(answer: Answer) -> (u16, String) {
    match answer {
        Answer::Response(r) => {
            assert!(r.headers.is_empty());
            match r.body {
                Body::Text(text) => (r.status, text),
                _ => panic!("no text"),
            }
        }
        Answer::Failure { .. } => panic!("a failure"),
    }
}

fn failure_of(answer: Answer) -> (u16, String) {
    match answer {
        Answer::Failure { status, message } => (status, message),
        Answer::Response(_) => panic!("a response"),
    }
}

fn json_of(answer: Answer) -> (u16, String) {
    match answer {
        Answer::Response(r) => {
            assert_eq!(r.content_type.as_deref(), Some("application/json"));
            match r.body {
                Body::Bytes(bytes) => (r.status, String::from_utf8(bytes).unwrap()),
                _ => panic!("no bytes"),
            }
        }
        Answer::Failure { .. } => panic!("a failure"),
    }
}

fn denied_to_others(answer: Answer) {
    assert_eq!(failure_of(answer), (401, "admin login required".to_string()));
}

#[test]
fn accounts_are_locked_unless_said_otherwise() {
    assert!(accounts_locked(None));
    assert!(accounts_locked(Some("true")));
    assert!(accounts_locked(Some("")));
    assert!(accounts_locked(Some("False")));
    assert!(!accounts_locked(Some("false")));
    assert!(!accounts_locked(Some("0")));
}

#[test]
fn account_is_added() {
    let change = add_account(&admin(), &settings(false), " new@example.com\n", store(&["a@b"], &[], &[])).ok().unwrap();
    assert_eq!(change.record.emails.sorted_members(), ["a@b", "new@example.com"]);
    assert_eq!(text_of(change.saved(None)), (201, "ok".to_string()));
}

#[test]
fn failed_write_is_reported() {
    let change = add_account(&admin(), &settings(false), "a@b", store(&[], &[], &[])).ok().unwrap();
    assert_eq!(failure_of(change.saved(Some("disk full".to_string()))), (500, "disk full".to_string()));
}

#[test]
fn account_is_not_added() {
    let refused = |who: Visitor, locked: bool, email: &str| {
        add_account(&who, &settings(locked), email, store(&[], &[], &[])).err().unwrap()
    };
    denied_to_others(refused(visitor(None), false, "a@b"));
    denied_to_others(refused(visitor(Some("a@b")), false, "a@b"));
    assert_eq!(text_of(refused(admin(), false, "nobody")), (400, "invalid email".to_string()));
    assert_eq!(text_of(refused(admin(), true, "a@b")), (403, LOCKED.to_string()));
    assert!(add_account(&admin(), &settings(true), ADMIN, store(&[], &[], &[])).is_ok());
}

#[test]
fn accounts_are_listed_in_order() {
    let answer = list_accounts(&admin(), &settings(true), &store(&["b@x", "a\"@x", "c@x"], &[], &[]));
    assert_eq!(json_of(answer), (200, r#"["a\"@x","b@x","c@x"]"#.to_string()));
    assert_eq!(json_of(list_accounts(&admin(), &settings(true), &store(&[], &[], &[]))), (200, "[]".to_string()));
    denied_to_others(list_accounts(&visitor(None), &settings(true), &store(&["b@x"], &[], &[])));
}

#[test]
fn account_is_removed() {
    let change = remove_account(&admin(), &settings(true), "a@b", store(&["a@b", "c@d"], &["a@b"], &[])).ok().unwrap();
    assert_eq!(change.record.emails.sorted_members(), ["c@d"]);
    assert_eq!(change.record.can_create_repos.sorted_members(), ["a@b"]);
    assert!(!account_may_create(&visitor(Some("a@b")), &change.record));
    assert_eq!(text_of(change.saved(None)), (200, "ok".to_string()));
    let missing = remove_account(&admin(), &settings(true), "x@y", store(&["a@b"], &[], &[])).err().unwrap();
    assert_eq!(text_of(missing), (404, "account not found".to_string()));
    denied_to_others(remove_account(&visitor(None), &settings(true), "a@b", store(&["a@b"], &[], &[])).err().unwrap());
}

#[test]
fn right_to_create_is_set() {
    let who = visitor(Some("a@b"));
    let given = set_create_permission(&admin(), &settings(true), "a@b", true, store(&["a@b"], &[], &[])).ok().unwrap();
    assert!(account_may_create(&who, &given.record));
    let taken = set_create_permission(&admin(), &settings(true), "a@b", false, given.record).ok().unwrap();
    assert!(!account_may_create(&who, &taken.record));
    assert_eq!(text_of(taken.saved(None)), (200, "ok".to_string()));
    let missing = set_create_permission(&admin(), &settings(true), "x@y", true, store(&[], &[], &[])).err().unwrap();
    assert_eq!(text_of(missing), (404, "account not found".to_string()));
    denied_to_others(
        set_create_permission(&who, &settings(true), "a@b", true, store(&["a@b"], &[], &[])).err().unwrap(),
    );
    assert!(!account_may_create(&visitor(None), &store(&["a@b"], &["a@b"], &[])));
    assert!(!account_may_create(&who, &store(&[], &["a@b"], &[])));
}

#[test]
fn request_waits_and_grants_nothing() {
    let filed = request_access(
        " new@example.com ",
        Some("demo".to_string()),
        Some("please".to_string()),
        "id2".to_string(),
        store(&["a@b"], &[], &[("id1", "old@example.com", None)]),
    )
    .ok()
    .unwrap();
    assert_eq!(filed.record().emails.sorted_members(), ["a@b"]);
    let ids: Vec<&str> = filed.record().pending_requests.iter().map(|r| r.id.as_str()).collect();
    assert_eq!(ids, ["id1", "id2"]);
    let last = &filed.record().pending_requests[1];
    assert_eq!(last.email, "new@example.com");
    assert_eq!(last.repo.as_deref(), Some("demo"));
    assert_eq!(last.message.as_deref(), Some("please"));
    assert!(!last.is_create_repo_request);
    let (notice, answer) = filed.saved(None);
    let notice = notice.unwrap();
    assert_eq!(notice.email, "new@example.com");
    assert_eq!(notice.repo.as_deref(), Some("demo"));
    assert_eq!(notice.message.as_deref(), Some("please"));
    assert_eq!(text_of(answer), (201, "request submitted".to_string()));
}

#[test]
fn request_that_is_not_written_is_not_announced() {
    let filed = request_access("a@b", None, None, "id".to_string(), store(&[], &[], &[])).ok().unwrap();
    let (notice, answer) = filed.saved(Some("disk full".to_string()));
    assert!(notice.is_none());
    assert_eq!(failure_of(answer), (500, "disk full".to_string()));
    let bad = request_access("nobody", None, None, "id".to_string(), store(&[], &[], &[])).err().unwrap();
    assert_eq!(text_of(bad), (400, "invalid email".to_string()));
}

#[test]
fn requests_are_listed_for_the_administrator() {
    let waiting = [("id1", "a@b", None), ("id2", "c@d", Some("demo"))];
    match list_access_requests(&admin(), &settings(true), store(&[], &[], &waiting)) {
        Answer::Response(r) => {
            assert_eq!(r.status, 200);
            assert_eq!(r.content_type.as_deref(), Some("application/json"));
            match r.body {
                Body::Requests(list) => {
                    assert_eq!(list.iter().map(|r| r.id.as_str()).collect::<Vec<_>>(), ["id1", "id2"]);
                }
                _ => panic!("no requests"),
            }
        }
        Answer::Failure { .. } => panic!("a failure"),
    }
    denied_to_others(list_access_requests(&visitor(None), &settings(true), store(&[], &[], &waiting)));
}

fn approval(allow_view: bool, allow_download: bool, allow_push: bool) -> Ruling {
    Ruling { approve: true, allow_view, allow_download, allow_push }
}

const DENIAL: Ruling = Ruling { approve: false, allow_view: true, allow_download: true, allow_push: true };

fn private() -> AccessConfig {
    AccessConfig {
        mode: Mode::Private,
        group: None,
        allow_view: true,
        allow_download: true,
        accounts: TextMap::new(),
    }
}

#[test]
fn decision_needs_the_administrator_and_a_request() {
    let waiting = [("id1", "a@b", None)];
    denied_to_others(
        decide_access_request(&visitor(None), &settings(false), "id1", DENIAL, store(&[], &[], &waiting)).err().unwrap(),
    );
    let missing =
        decide_access_request(&admin(), &settings(false), "id9", DENIAL, store(&[], &[], &waiting)).err().unwrap();
    assert_eq!(text_of(missing), (404, "request not found".to_string()));
}

#[test]
fn denial_takes_the_request_off_the_list() {
    let waiting = [("id1", "a@b", None), ("id2", "c@d", Some("demo")), ("id3", "e@f", None)];
    let decided =
        decide_access_request(&admin(), &settings(true), "id2", DENIAL, store(&["x@y"], &[], &waiting)).ok().unwrap();
    assert_eq!(decided.record().emails.sorted_members(), ["x@y"]);
    let ids: Vec<&str> = decided.record().pending_requests.iter().map(|r| r.id.as_str()).collect();
    assert_eq!(ids, ["id1", "id3"]);
    match decided.saved(None) {
        Ok(AfterAccounts::Settled(done)) => {
            assert_eq!(done.notice.email, "c@d");
            assert!(!done.notice.approved);
            assert_eq!(done.notice.repo.as_deref(), Some("demo"));
            assert_eq!(text_of(done.answer), (200, "denied".to_string()));
        }
        _ => panic!("not settled"),
    }
}

#[test]
fn approval_without_a_repository_makes_an_account() {
    let waiting = [("id1", "a@b", None)];
    let decided =
        decide_access_request(&admin(), &settings(false), "id1", approval(true, true, true), store(&[], &[], &waiting))
            .ok()
            .unwrap();
    assert_eq!(decided.record().emails.sorted_members(), ["a@b"]);
    match decided.saved(None) {
        Ok(AfterAccounts::Settled(done)) => {
            assert!(done.notice.approved);
            assert_eq!(text_of(done.answer), (200, "approved".to_string()));
        }
        _ => panic!("not settled"),
    }
}

#[test]
fn approval_grants_what_was_ticked() {
    let waiting = [("id1", "a@b", Some("demo"))];
    let decided =
        decide_access_request(&admin(), &settings(false), "id1", approval(true, false, true), store(&[], &[], &waiting))
            .ok()
            .unwrap();
    let grant = match decided.saved(None) {
        Ok(AfterAccounts::Grant(grant)) => grant,
        _ => panic!("no grant"),
    };
    assert_eq!(grant.dir(), "demo.git");
    let mut before = private();
    let all = AccountPermission { allow_view: true, allow_download: true, allow_push: true };
    before.accounts.insert("c@d".to_string(), all);
    let write = match grant.found(Some(before)) {
        AfterLookup::Write(write) => write,
        AfterLookup::Settled(_) => panic!("settled"),
    };
    assert_eq!(write.dir(), "demo.git");
    let groups = GroupStore { groups: TextMap::new() };
    assert!(is_allowed(write.record(), Need::View, &groups, None, Some("a@b")));
    assert!(!is_allowed(write.record(), Need::Download, &groups, None, Some("a@b")));
    assert!(is_allowed(write.record(), Need::Push, &groups, None, Some("a@b")));
    assert!(is_allowed(write.record(), Need::Download, &groups, None, Some("c@d")));
    assert!(!is_allowed(write.record(), Need::View, &groups, None, None));
    let done = write.saved(None).ok().unwrap();
    assert_eq!(done.notice.email, "a@b");
    assert_eq!(text_of(done.answer), (200, "approved".to_string()));
}

#[test]
fn approval_for_a_missing_repository_still_makes_an_account() {
    let waiting = [("id1", "a@b", Some("gone.git"))];
    let decided =
        decide_access_request(&admin(), &settings(false), "id1", approval(true, true, true), store(&[], &[], &waiting))
            .ok()
            .unwrap();
    let grant = match decided.saved(None) {
        Ok(AfterAccounts::Grant(grant)) => grant,
        _ => panic!("no grant"),
    };
    assert_eq!(grant.dir(), "gone.git");
    match grant.found(None) {
        AfterLookup::Settled(done) => assert_eq!(text_of(done.answer), (200, "approved".to_string())),
        AfterLookup::Write(_) => panic!("written"),
    }
}

#[test]
fn approval_can_fail() {
    let decide = |repo: Option<&str>| {
        let waiting = [("id1", "a@b", repo)];
        decide_access_request(&admin(), &settings(false), "id1", approval(true, true, true), store(&[], &[], &waiting))
            .ok()
            .unwrap()
    };
    assert_eq!(
        failure_of(decide(None).saved(Some("disk full".to_string())).err().unwrap()),
        (500, "disk full".to_string())
    );
    assert_eq!(
        failure_of(decide(Some("../x")).saved(None).err().unwrap()),
        (400, "invalid repository name".to_string())
    );
    let grant = match decide(Some("demo")).saved(None) {
        Ok(AfterAccounts::Grant(grant)) => grant,
        _ => panic!("no grant"),
    };
    match grant.found(Some(private())) {
        AfterLookup::Write(write) => assert_eq!(
            failure_of(write.saved(Some("read-only".to_string())).err().unwrap()),
            (500, "read-only".to_string())
        ),
        AfterLookup::Settled(_) => panic!("settled"),
    }
}

#[test]
fn locked_accounts_are_not_approved() {
    let waiting = [("id1", "a@b", Some("demo")), ("id2", ADMIN, None)];
    let decided =
        decide_access_request(&admin(), &settings(true), "id1", approval(true, true, true), store(&[], &[], &waiting))
            .ok()
            .unwrap();
    assert!(decided.record().emails.sorted_members().is_empty());
    assert_eq!(decided.record().pending_requests.len(), 1);
    assert_eq!(text_of(decided.saved(None).err().unwrap()), (403, LOCKED.to_string()));
    let own =
        decide_access_request(&admin(), &settings(true), "id2", approval(true, true, true), store(&[], &[], &waiting))
            .ok()
            .unwrap();
    assert_eq!(own.record().emails.sorted_members(), [ADMIN]);
    assert!(own.saved(None).is_ok());
}

fn groups(list: &[(&str, &str)]) -> GroupStore {
    let mut groups = TextMap::new();
    for (name, token) in list {
        groups.insert(name.to_string(), GroupInfo { token: token.to_string() });
    }
    GroupStore { groups }
}

#[test]
fn group_is_created_with_its_token() {
    let change =
        create_group(&admin(), &settings(true), "team", groups(&[("class", "c")]), "tok".to_string()).ok().unwrap();
    assert_eq!(change.record.groups.sorted_keys(), ["class", "team"]);
    assert_eq!(change.record.groups.get("team").unwrap().token, "tok");
    assert_eq!(change.record.groups.get("class").unwrap().token, "c");
    match change.saved(None) {
        Answer::Response(r) => {
            assert_eq!((r.status, r.content_type.as_deref()), (201, Some("application/json")));
            assert!(matches!(r.body, Body::Bytes(json) if json == br#"{"name":"team","token":"tok"}"#));
        }
        Answer::Failure { .. } => panic!("a failure"),
    }
}

#[test]
fn group_is_not_created() {
    let refused = |who: Visitor, name: &str| {
        create_group(&who, &settings(true), name, groups(&[("team", "t")]), "tok".to_string()).err().unwrap()
    };
    denied_to_others(refused(visitor(None), "x"));
    for name in ["", "a/b", "a\\b", "a.b"] {
        assert_eq!(text_of(refused(admin(), name)), (400, "invalid group name".to_string()));
    }
    assert_eq!(text_of(refused(admin(), "team")), (409, "group already exists".to_string()));
}

#[test]
fn groups_are_listed_without_tokens() {
    let one = list_groups(&admin(), &settings(true), &groups(&[("b", "secret"), ("a", "hidden")]));
    let other = list_groups(&admin(), &settings(true), &groups(&[("a", "x"), ("b", "y")]));
    assert_eq!(json_of(one), (200, r#"["a","b"]"#.to_string()));
    assert_eq!(json_of(other), (200, r#"["a","b"]"#.to_string()));
    denied_to_others(list_groups(&visitor(None), &settings(true), &groups(&[])));
}

#[test]
fn group_is_deleted() {
    let change = delete_group(&admin(), &settings(true), "a", groups(&[("a", "x"), ("b", "y")])).ok().unwrap();
    assert_eq!(change.record.groups.sorted_keys(), ["b"]);
    assert_eq!(text_of(change.saved(None)), (200, "ok".to_string()));
    let missing = delete_group(&admin(), &settings(true), "c", groups(&[("a", "x")])).err().unwrap();
    assert_eq!(text_of(missing), (404, "group not found".to_string()));
    denied_to_others(delete_group(&visitor(None), &settings(true), "a", groups(&[("a", "x")])).err().unwrap());
}

#[test]
fn settings_of_a_repository_are_read() {
    assert_eq!(settings_dir(&admin(), &settings(true), "demo").ok().unwrap(), "demo.git");
    assert_eq!(
        failure_of(settings_dir(&admin(), &settings(true), "a/b").err().unwrap()),
        (400, "invalid repository name".to_string())
    );
    match get_access(&admin(), &settings(true), "demo", Some(private())) {
        Answer::Response(r) => {
            assert_eq!(r.status, 200);
            assert!(matches!(r.body, Body::Access(config) if config.mode == Mode::Private));
        }
        Answer::Failure { .. } => panic!("a failure"),
    }
    assert_eq!(
        text_of(get_access(&admin(), &settings(true), "demo", None)),
        (404, "repository not found".to_string())
    );
    denied_to_others(get_access(&visitor(Some("a@b")), &settings(true), "demo", Some(private())));
}

#[test]
fn settings_of_a_repository_are_written() {
    let with_group = |group: Option<&str>| AccessConfig {
        mode: Mode::Group,
        group: group.map(str::to_string),
        allow_view: true,
        allow_download: false,
        accounts: TextMap::new(),
    };
    let known = groups(&[("team", "t")]);
    let set = |exists: bool, config: AccessConfig| set_access(&admin(), &settings(true), "demo", exists, config, &known);
    let change = set(true, with_group(Some("team"))).ok().unwrap();
    assert_eq!(change.record.group.as_deref(), Some("team"));
    assert_eq!(text_of(change.saved(None)), (200, "ok".to_string()));
    assert!(set(true, private()).is_ok());
    assert_eq!(text_of(set(false, private()).err().unwrap()), (404, "repository not found".to_string()));
    assert_eq!(
        text_of(set(true, with_group(None)).err().unwrap()),
        (400, "group name required for group mode".to_string())
    );
    assert_eq!(text_of(set(true, with_group(Some("x"))).err().unwrap()), (400, "unknown group".to_string()));
    denied_to_others(
        set_access(&visitor(None), &settings(true), "demo", true, private(), &known).err().unwrap(),
    );
}

#[test]
fn password_goes_to_accounts_only() {
    let accounts = store(&["a@b"], &[], &[]);
    assert_eq!(request_otp(&settings(true), &accounts, true, " a@b ").ok().unwrap(), "a@b");
    assert_eq!(request_otp(&settings(true), &accounts, true, ADMIN).ok().unwrap(), ADMIN);
    assert_eq!(
        text_of(request_otp(&settings(true), &accounts, true, "x@y").err().unwrap()),
        (403, "email not registered".to_string())
    );
    assert_eq!(
        text_of(request_otp(&settings(true), &accounts, false, "x@y").err().unwrap()),
        (403, "email not registered".to_string())
    );
    assert_eq!(
        text_of(request_otp(&settings(true), &accounts, false, "a@b").err().unwrap()),
        (503, "SMTP not configured".to_string())
    );
}

#[test]
fn removed_account_gets_no_password() {
    let added = add_account(&admin(), &settings(false), "a@b", store(&[], &[], &[])).ok().unwrap().record;
    assert!(request_otp(&settings(false), &added, true, "a@b").is_ok());
    let removed = remove_account(&admin(), &settings(false), "a@b", added).ok().unwrap().record;
    assert!(request_otp(&settings(false), &removed, true, "a@b").is_err());
}

#[test]
fn answers_once_a_password_was_mailed() {
    assert_eq!(text_of(otp_sent(true)), (200, "otp sent".to_string()));
    assert_eq!(text_of(otp_sent(false)), (502, "failed to send mail".to_string()));
}
