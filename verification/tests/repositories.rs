//! Names, Git over HTTP, the list of repositories, new ones, and reading them.

use rgit::access::{AccessConfig, AccountPermission, GroupStore, Mode, Need, Settings, Visitor};
use rgit::accounts::AccountStore;
use rgit::browse::{
    archive_failed, commits_command, head_command, open_repo, readme_response, require_branch, resolve_default_branch,
    Downloader, HeadLook, Reader,
};
use rgit::cgi::{
    backend_environment, cgi_response, git_gate, git_http_backend, parse_cgi_response, parse_git_repo_and_need, BackendRun,
};
use rgit::names::{
    archive_paths, bad_group_name, check_file_path, check_paths, raw_file_path, sanitize_repo_name, sanitize_tree_path,
};
use rgit::pages::{parse_readme_fields, parse_string_array};
use rgit::reply::{Answer, Body, Response};
use rgit::repos::{entry_name, get_capacity, list_repos, permit_creation, send_repos, GitRun, RepoEntry};
use rgit::store::{TextMap, TextSet};

const ADMIN: &str = "admin@example.com";

fn settings() -> Settings {
    Settings { admin_email: ADMIN.to_string(), accounts_locked: true }
}

fn visitor(identity: Option<&str>) -> Visitor {
    Visitor { identity: identity.map(str::to_string), group_token: None }
}

fn no_groups() -> GroupStore {
    GroupStore { groups: TextMap::new() }
}

fn config(mode: Mode, allow_view: bool, allow_download: bool) -> AccessConfig {
    AccessConfig { mode, group: None, allow_view, allow_download, accounts: TextMap::new() }
}

fn response_of(answer: Answer) -> Response {
    match answer {
        Answer::Response(r) => r,
        Answer::Failure { status, message } => panic!("failure {status}: {message}"),
    }
}

fn text_of(answer: Answer) -> (u16, String) {
    let r = response_of(answer);
    match r.body {
        Body::Text(text) => (r.status, text),
        _ => panic!("no text"),
    }
}

fn bytes_of(body: Body) -> Vec<u8> {
    match body {
        Body::Bytes(bytes) => bytes,
        _ => panic!("no bytes"),
    }
}

fn failure_of(answer: Answer) -> (u16, String) {
    match answer {
        Answer::Failure { status, message } => (status, message),
        Answer::Response(_) => panic!("a response"),
    }
}

fn ran(success: bool, stdout: &[u8], stderr: &[u8]) -> GitRun {
    GitRun::Ran { success, stdout: stdout.to_vec(), stderr: stderr.to_vec() }
}

fn look(head: GitRun, commits: GitRun) -> HeadLook {
    HeadLook { head, commits }
}

fn a_commit() -> GitRun {
    ran(true, b"0123456789abcdef0123456789abcdef01234567\n", b"")
}

fn on_main() -> HeadLook {
    look(ran(true, b"main\n", b""), a_commit())
}

fn not_started() -> GitRun {
    GitRun::NotStarted("no git".to_string())
}

#[test]
fn repository_names() {
    assert_eq!(sanitize_repo_name("demo").ok().unwrap(), "demo.git");
    assert_eq!(sanitize_repo_name("demo.git").ok().unwrap(), "demo.git");
    assert_eq!(sanitize_repo_name(".git").ok().unwrap(), ".git");
    assert_eq!(sanitize_repo_name("a.b").ok().unwrap(), "a.b.git");
    for name in ["", "..", "a..b", "a/b", "/", "a\\b", "../x.git"] {
        assert_eq!(
            failure_of(sanitize_repo_name(name).err().unwrap()),
            (400, "invalid repository name".to_string()),
            "{name}"
        );
    }
}

#[test]
fn suffix_of_a_repository_name_is_optional() {
    let dir = sanitize_repo_name("demo").ok().unwrap();
    assert_eq!(sanitize_repo_name(&dir).ok().unwrap(), dir);
    let dotted = sanitize_repo_name("a.").ok().unwrap();
    assert_eq!(dotted, "a..git");
    assert!(sanitize_repo_name(&dotted).is_err());
}

#[test]
fn paths_in_a_tree() {
    for path in ["", "a", "a/b", "...", "a..b/c", "/", "a//b", "a\\..\\b"] {
        assert!(sanitize_tree_path(path).is_ok(), "{path}");
    }
    for path in ["..", "../a", "a/..", "a/../b", "/.."] {
        assert_eq!(failure_of(sanitize_tree_path(path).err().unwrap()), (400, "invalid path".to_string()), "{path}");
        assert_eq!(failure_of(check_file_path(path).err().unwrap()), (400, "invalid path".to_string()), "{path}");
    }
    assert!(check_file_path("a").is_ok());
    assert_eq!(failure_of(check_file_path("").err().unwrap()), (400, "file path required".to_string()));
}

#[test]
fn file_of_a_raw_download() {
    assert_eq!(raw_file_path("demo", "/api/repos/demo/raw/src/a%20b.rs").ok().unwrap(), "src/a b.rs");
    assert_eq!(
        failure_of(raw_file_path("demo", "/api/repos/demo/raw/").err().unwrap()),
        (400, "file path required".to_string())
    );
    for path in ["/api/repos/other/raw/a", "/x", "/api/repos/demo/raw/a/%2e%2e/b", "/api/repos/demo/raw/.."] {
        assert_eq!(failure_of(raw_file_path("demo", path).err().unwrap()), (400, "invalid path".to_string()), "{path}");
    }
}

#[test]
fn paths_of_an_archive() {
    assert!(archive_paths(None).is_empty());
    assert!(archive_paths(Some("x=1")).is_empty());
    assert_eq!(archive_paths(Some("paths=a,b%2Cc&paths=d")), ["a", "b", "c"]);
    assert_eq!(archive_paths(Some("paths=")), [""]);
    assert!(check_paths(&vec!["a".to_string(), "b/c".to_string()]).is_ok());
    assert!(check_paths(&Vec::new()).is_ok());
    assert_eq!(
        failure_of(check_paths(&vec!["a".to_string(), "../b".to_string()]).err().unwrap()),
        (400, "invalid path".to_string())
    );
}

#[test]
fn group_names() {
    assert!(!bad_group_name("team-1"));
    for name in ["", "a/b", "a\\b", "a.b"] {
        assert!(bad_group_name(name));
    }
}

#[test]
fn targets_of_git_requests() {
    let target = |path: &str, query: &str| parse_git_repo_and_need(path, query);
    assert_eq!(target("/demo.git/info/refs", "service=git-upload-pack"), Some(("demo.git".to_string(), Need::Download)));
    assert_eq!(target("/demo.git/info/refs", "service=git-receive-pack"), Some(("demo.git".to_string(), Need::Push)));
    assert_eq!(target("/demo.git/git-upload-pack", ""), Some(("demo.git".to_string(), Need::Download)));
    assert_eq!(target("/demo.git/git-receive-pack", ""), Some(("demo.git".to_string(), Need::Push)));
    assert_eq!(target("//demo.git/HEAD", ""), Some(("demo.git".to_string(), Need::Download)));
    assert_eq!(target("/demo.git/", ""), Some(("demo.git".to_string(), Need::Download)));
    assert_eq!(target("/demo.git", ""), None);
    assert_eq!(target("/demo/info/refs", ""), None);
    assert_eq!(target("", ""), None);
}

#[test]
fn git_requests_obey_the_settings() {
    let mut shared = config(Mode::Public, true, true);
    shared.accounts.insert(
        "a@b".to_string(),
        AccountPermission { allow_view: true, allow_download: true, allow_push: true },
    );
    let shared = Some(shared);
    let gate = |path: &str, who: Option<&str>, authorization: Option<&str>| {
        git_gate(path, "", &shared, &visitor(who), &settings(), &no_groups(), authorization)
    };
    assert!(gate("/demo.git/git-upload-pack", None, None).is_none());
    assert_eq!(text_of(gate("/demo.git/git-receive-pack", None, None).unwrap()).0, 401);
    assert_eq!(text_of(gate("/demo.git/git-receive-pack", Some("c@d"), Some("Bearer x")).unwrap()).0, 403);
    assert!(gate("/demo.git/git-receive-pack", Some("a@b"), Some("Bearer x")).is_none());
    assert!(gate("/demo.git/git-receive-pack", Some(ADMIN), Some("Bearer x")).is_none());
    assert!(gate("/elsewhere", None, None).is_none());
    assert!(git_gate("/gone.git/git-receive-pack", "", &None, &visitor(None), &settings(), &no_groups(), None).is_none());
}

#[test]
fn environment_of_the_backend() {
    let list = backend_environment("/demo.git/info/refs", "service=git-upload-pack", "GET", "text/plain");
    let pairs: Vec<(&str, &str)> = list.iter().map(|(a, b)| (a.as_str(), b.as_str())).collect();
    assert_eq!(
        pairs,
        [
            ("GIT_HTTP_EXPORT_ALL", "1"),
            ("PATH_INFO", "/demo.git/info/refs"),
            ("QUERY_STRING", "service=git-upload-pack"),
            ("REQUEST_METHOD", "GET"),
            ("CONTENT_TYPE", "text/plain"),
            ("REMOTE_USER", "rgit"),
        ]
    );
}

#[test]
fn output_of_the_backend() {
    let r = response_of(parse_cgi_response(
        b"Status: 404 Not Found\r\nContent-Type:  text/plain \r\nnonsense\r\nX-A: b:c\r\n\r\nbody\r\n\r\nmore\xff",
    ));
    assert_eq!(r.status, 404);
    assert_eq!(r.content_type, None);
    assert_eq!(
        r.headers,
        [
            ("Content-Type".to_string(), "text/plain".to_string()),
            ("X-A".to_string(), "b:c".to_string()),
        ]
    );
    assert_eq!(bytes_of(r.body), b"body\r\n\r\nmore\xff");
}

#[test]
fn status_of_the_backend() {
    let status = |head: &str| cgi_response(head, Vec::new()).status;
    assert_eq!(status(""), 200);
    assert_eq!(status("Content-Type: a"), 200);
    assert_eq!(status("STATUS:404"), 404);
    assert_eq!(status("status: 201 Created\r\nStatus: 202"), 202);
    assert_eq!(status("Status: 201\r\nStatus: nonsense"), 201);
    assert_eq!(status("Status: 99"), 200);
    assert_eq!(status("Status: 100"), 100);
    assert_eq!(status("Status: 999"), 999);
    assert_eq!(status("Status: 1000"), 200);
    assert_eq!(status("Status: 70000"), 200);
    assert_eq!(status("Status:"), 200);
}

#[test]
fn output_without_a_blank_line() {
    for raw in [&b""[..], b"Status: 200\r\n", b"a\n\nb", b"\r\n\r"] {
        assert_eq!(
            failure_of(parse_cgi_response(raw)),
            (500, "malformed CGI output from git http-backend".to_string())
        );
    }
    let r = response_of(parse_cgi_response(b"\r\n\r\n"));
    assert_eq!((r.status, r.headers.len()), (200, 0));
    assert!(bytes_of(r.body).is_empty());
}

#[test]
fn head_that_is_no_text() {
    let r = response_of(parse_cgi_response(b"X-A: \xff\r\n\r\n"));
    assert_eq!(r.headers, [("X-A".to_string(), "\u{fffd}".to_string())]);
}

#[test]
fn runs_of_the_backend() {
    let message = || "oops".to_string();
    assert_eq!(failure_of(git_http_backend(BackendRun::Unreadable(message()))), (400, "oops".to_string()));
    assert_eq!(
        failure_of(git_http_backend(BackendRun::NotStarted(message()))),
        (500, "failed to spawn git http-backend: oops".to_string())
    );
    assert_eq!(failure_of(git_http_backend(BackendRun::Broken(message()))), (500, "oops".to_string()));
    let r = response_of(git_http_backend(BackendRun::Output(b"Status: 201\r\n\r\nx".to_vec())));
    assert_eq!((r.status, bytes_of(r.body)), (201, b"x".to_vec()));
}

fn entries() -> Vec<RepoEntry> {
    let mut mine = config(Mode::Private, true, true);
    mine.accounts.insert(
        "a@b".to_string(),
        AccountPermission { allow_view: true, allow_download: false, allow_push: false },
    );
    let dir = |name: &[u8], config: AccessConfig| RepoEntry { name: name.to_vec(), is_dir: true, config };
    vec![
        dir(b"z.git", config(Mode::Public, true, true)),
        dir(b"mine.git", mine),
        RepoEntry { name: b"notes.txt".to_vec(), is_dir: false, config: config(Mode::Public, true, true) },
        dir(b"b.git", config(Mode::Private, true, true)),
        dir(b"\xff.git", config(Mode::Public, true, true)),
        dir(b"a.git", config(Mode::Public, false, true)),
        dir(b"B.git", config(Mode::Public, true, false)),
    ]
}

#[test]
fn entries_that_are_repositories() {
    let name = |bytes: &[u8], is_dir: bool| {
        entry_name(&RepoEntry { name: bytes.to_vec(), is_dir, config: config(Mode::Public, true, true) })
    };
    assert_eq!(name("日本.git".as_bytes(), true).as_deref(), Some("日本.git"));
    assert_eq!(name(b"a.git", false), None);
    assert_eq!(name(b"\xff.git", true), None);
}

#[test]
fn page_reads_the_list_that_was_sent() {
    let r = response_of(send_repos(&visitor(Some("a@b")), &settings(), &no_groups(), Ok(entries())));
    assert_eq!((r.status, r.content_type.as_deref()), (200, Some("application/json; charset=utf-8")));
    let text = String::from_utf8(bytes_of(r.body)).unwrap();
    assert_eq!(text, r#"["B.git","mine.git","z.git"]"#);
    assert_eq!(parse_string_array(&text), ["B.git", "mine.git", "z.git"]);
    let failed = send_repos(&visitor(None), &settings(), &no_groups(), Err("unreadable".to_string()));
    assert_eq!(failure_of(failed), (500, "unreadable".to_string()));
}

#[test]
fn listed_repositories_are_viewable() {
    let list = |who: Option<&str>| list_repos(&visitor(who), &settings(), &no_groups(), Ok(entries())).ok().unwrap();
    assert_eq!(list(Some(ADMIN)), ["B.git", "a.git", "b.git", "mine.git", "z.git"]);
    assert_eq!(list(Some("a@b")), ["B.git", "mine.git", "z.git"]);
    assert_eq!(list(None), ["B.git", "z.git"]);
    let failed = list_repos(&visitor(None), &settings(), &no_groups(), Err("unreadable".to_string())).err().unwrap();
    assert_eq!(failure_of(failed), (500, "unreadable".to_string()));
}

fn accounts(emails: &[&str], creators: &[&str]) -> AccountStore {
    let mut store =
        AccountStore { emails: TextSet::new(), can_create_repos: TextSet::new(), pending_requests: Vec::new() };
    for email in emails {
        store.emails.insert(email.to_string());
    }
    for email in creators {
        store.can_create_repos.insert(email.to_string());
    }
    store
}

#[test]
fn repository_is_created() {
    for who in [ADMIN, "a@b"] {
        let repo = permit_creation(&visitor(Some(who)), &settings(), &accounts(&["a@b"], &["a@b"]))
            .ok()
            .unwrap()
            .room(true, Vec::new())
            .ok()
            .unwrap()
            .named("demo")
            .ok()
            .unwrap();
        assert_eq!(repo.dir(), "demo.git");
        let rooted = repo.absent(false).ok().unwrap().rooted(None).ok().unwrap();
        assert_eq!(rooted.dir(), "demo.git");
        assert_eq!(text_of(rooted.initialised(ran(true, b"", b""))), (201, "demo.git".to_string()));
    }
}

#[test]
fn creation_is_refused_to_others() {
    for (who, emails, creators) in [
        (None, vec!["a@b"], vec!["a@b"]),
        (Some("a@b"), vec![], vec!["a@b"]),
        (Some("a@b"), vec!["a@b"], vec![]),
    ] {
        let refusal = permit_creation(&visitor(who), &settings(), &accounts(&emails, &creators)).err().unwrap();
        assert_eq!(failure_of(refusal), (403, "repository creation not permitted for this account".to_string()));
    }
}

#[test]
fn creation_stops_on_the_way() {
    let permitted = || permit_creation(&visitor(Some(ADMIN)), &settings(), &accounts(&[], &[])).ok().unwrap();
    let full = response_of(permitted().room(false, b"{}".to_vec()).err().unwrap());
    assert_eq!((full.status, full.content_type.as_deref()), (507, Some("application/json")));
    assert_eq!(bytes_of(full.body), b"{}");
    let roomy = || permitted().room(true, b"{}".to_vec()).ok().unwrap();
    assert_eq!(failure_of(roomy().named("a/b").err().unwrap()), (400, "invalid repository name".to_string()));
    let repo = || roomy().named("demo.git").ok().unwrap();
    assert_eq!(text_of(repo().absent(true).err().unwrap()), (409, "repository already exists".to_string()));
    let ready = || repo().absent(false).ok().unwrap();
    assert_eq!(failure_of(ready().rooted(Some("read-only".to_string())).err().unwrap()), (500, "read-only".to_string()));
    let rooted = || ready().rooted(None).ok().unwrap();
    assert_eq!(
        failure_of(rooted().initialised(not_started())),
        (500, "failed to spawn git init: no git".to_string())
    );
    assert_eq!(
        failure_of(rooted().initialised(ran(false, b"", b""))),
        (500, "git init --bare failed".to_string())
    );
}

#[test]
fn report_on_the_disk() {
    let r = response_of(get_capacity(b"{\"allowed\":true}".to_vec()));
    assert_eq!((r.status, r.content_type.as_deref()), (200, Some("application/json")));
    assert_eq!(bytes_of(r.body), b"{\"allowed\":true}");
}

fn reader() -> Reader {
    open_repo("demo")
        .ok()
        .unwrap()
        .found(true)
        .ok()
        .unwrap()
        .view_as(&visitor(None), &settings(), &config(Mode::Public, true, false), &no_groups())
        .ok()
        .unwrap()
}

fn downloader() -> Downloader {
    open_repo("demo")
        .ok()
        .unwrap()
        .found(true)
        .ok()
        .unwrap()
        .download_as(&visitor(None), &settings(), &config(Mode::Public, false, true), &no_groups())
        .ok()
        .unwrap()
}

#[test]
fn repositories_open_to_those_who_may() {
    assert_eq!(failure_of(open_repo("..").err().unwrap()), (400, "invalid repository name".to_string()));
    let named = open_repo("demo").ok().unwrap();
    assert_eq!(named.dir(), "demo.git");
    assert_eq!(text_of(named.found(false).err().unwrap()), (404, "repository not found".to_string()));
    let found = || open_repo("demo").ok().unwrap().found(true).ok().unwrap();
    assert_eq!(found().dir(), "demo.git");
    let closed = config(Mode::Private, true, true);
    let nobody = visitor(None);
    assert_eq!(
        failure_of(found().view_as(&nobody, &settings(), &closed, &no_groups()).err().unwrap()),
        (403, "access denied".to_string())
    );
    assert_eq!(
        failure_of(found().download_as(&nobody, &settings(), &closed, &no_groups()).err().unwrap()),
        (403, "access denied".to_string())
    );
    let view_only = config(Mode::Public, true, false);
    assert!(found().view_as(&nobody, &settings(), &view_only, &no_groups()).is_ok());
    assert!(found().download_as(&nobody, &settings(), &view_only, &no_groups()).is_err());
    assert_eq!(reader().dir(), "demo.git");
    assert_eq!(downloader().dir(), "demo.git");
}

#[test]
fn default_branches() {
    assert_eq!(head_command(), ["symbolic-ref", "--short", "HEAD"]);
    assert_eq!(commits_command(), ["rev-list", "-n", "1", "--all"]);
    let branch = |head: GitRun, commits: GitRun| resolve_default_branch(look(head, commits));
    assert_eq!(branch(ran(true, b" main\n", b""), a_commit()).ok().unwrap(), "main");
    assert_eq!(branch(ran(true, b"main\n", b""), ran(true, b"", b"")).ok().unwrap(), "");
    assert_eq!(branch(ran(true, b"main\n", b""), ran(false, b"", b"fatal")).ok().unwrap(), "main");
    assert_eq!(branch(ran(false, b"", b"fatal"), a_commit()).ok().unwrap(), "");
    assert_eq!(branch(ran(true, b"\xff\n", b""), a_commit()).ok().unwrap(), "\u{fffd}");
    assert_eq!(failure_of(branch(not_started(), ran(true, b"", b"")).err().unwrap()), (500, "no git".to_string()));
    assert_eq!(failure_of(branch(on_main().head, not_started()).err().unwrap()), (500, "no git".to_string()));
    assert_eq!(require_branch("main".to_string()).ok().unwrap(), "main");
    assert_eq!(
        text_of(require_branch(String::new()).err().unwrap()),
        (404, "repository has no commits yet".to_string())
    );
    assert_eq!(
        text_of(reader().on_branch(look(ran(true, b"\n", b""), a_commit())).err().unwrap()),
        (404, "repository has no commits yet".to_string())
    );
}

#[test]
fn readme_of_a_repository() {
    let place = || reader().on_branch(on_main()).ok().unwrap();
    assert_eq!(place().dir(), "demo.git");
    assert_eq!(place().readme_command(), ["show", "main:README.md"]);
    let r = response_of(place().get_readme(ran(true, "# 見出し\n".as_bytes(), b"")));
    assert_eq!((r.status, r.content_type.as_deref()), (200, Some("application/json")));
    assert_eq!(bytes_of(r.body), "{\"branch\":\"main\",\"content\":\"# 見出し\\n\"}".as_bytes());
    let r = response_of(place().get_readme(ran(true, b"\xff", b"")));
    assert_eq!(bytes_of(r.body), "{\"branch\":\"main\",\"content\":\"\u{fffd}\"}".as_bytes());
    assert_eq!(
        text_of(place().get_readme(ran(false, b"", b""))),
        (404, "README.md not found in default branch".to_string())
    );
    assert_eq!(failure_of(place().get_readme(not_started())), (500, "no git".to_string()));
    let r = response_of(readme_response("b".to_string(), "c".to_string()));
    assert_eq!(bytes_of(r.body), br#"{"branch":"b","content":"c"}"#);
}

#[test]
fn repository_without_commits() {
    let nothing = || look(ran(true, b"main\n", b""), ran(true, b"", b""));
    let said = (404, "repository has no commits yet".to_string());
    assert_eq!(text_of(reader().on_branch(nothing()).err().unwrap()), said);
    assert_eq!(text_of(downloader().on_branch(nothing()).err().unwrap()), said);
    let file = downloader().raw_file("/api/repos/demo/raw/a").ok().unwrap();
    assert_eq!(text_of(file.on_branch(nothing()).err().unwrap()), said);
}

#[test]
fn branch_without_commits_in_a_repository_with_some() {
    let unborn = || look(ran(true, b"master\n", b""), a_commit());
    let place = || reader().on_branch(unborn()).ok().unwrap();
    assert_eq!(place().readme_command(), ["show", "master:README.md"]);
    let failed = || ran(false, b"", b"fatal");
    assert_eq!(
        text_of(place().get_readme(failed())),
        (404, "README.md not found in default branch".to_string())
    );
    assert_eq!(failure_of(place().get_tree(failed())), (500, "git ls-tree failed".to_string()));
    let file = downloader().raw_file("/api/repos/demo/raw/a").ok().unwrap().on_branch(unborn()).ok().unwrap();
    assert_eq!(text_of(file.get_raw_file(failed())), (404, "file not found".to_string()));
    let archive = downloader().on_branch(unborn()).ok().unwrap().select(None).ok().unwrap();
    assert_eq!(failure_of(archive.get_zip(failed())), (400, "git archive failed: fatal".to_string()));
}

#[test]
fn page_reads_the_readme_that_was_sent() {
    let content = "# \"T\"\\\n\t日本\u{1}";
    let sent = response_of(readme_response("ma\"in".to_string(), content.to_string()));
    let text = String::from_utf8(bytes_of(sent.body)).unwrap();
    assert_eq!(parse_readme_fields(&text), Some(("ma\"in".to_string(), content.to_string())));
}

#[test]
fn files_of_a_repository() {
    let place = || reader().on_branch(on_main()).ok().unwrap();
    assert_eq!(place().tree_command(), ["ls-tree", "-r", "--name-only", "main"]);
    let tree = |stdout: &[u8]| {
        let r = response_of(place().get_tree(ran(true, stdout, b"")));
        assert_eq!((r.status, r.content_type.as_deref()), (200, Some("application/json")));
        String::from_utf8(bytes_of(r.body)).unwrap()
    };
    assert_eq!(tree(b"README.md\nsrc/a\"b.rs\n"), r#"["README.md","src/a\"b.rs"]"#);
    assert_eq!(tree(b""), "[]");
    assert_eq!(tree(b"a\xff\nb\n"), "[]");
    assert_eq!(failure_of(place().get_tree(ran(false, b"", b""))), (500, "git ls-tree failed".to_string()));
    assert_eq!(failure_of(place().get_tree(not_started())), (500, "no git".to_string()));
}

#[test]
fn single_files() {
    let file = downloader().raw_file("/api/repos/demo/raw/src/a%20b.rs").ok().unwrap();
    assert_eq!(file.dir(), "demo.git");
    let place = || {
        downloader()
            .raw_file("/api/repos/demo/raw/src/a%20b.rs")
            .ok()
            .unwrap()
            .on_branch(on_main())
            .ok()
            .unwrap()
    };
    assert_eq!(place().dir(), "demo.git");
    assert_eq!(place().command(), ["show", "main:src/a b.rs"]);
    let r = response_of(place().get_raw_file(ran(true, b"\x00\xff", b"")));
    assert_eq!((r.status, r.content_type.as_deref()), (200, Some("application/octet-stream")));
    assert_eq!(
        r.headers,
        [("Content-Disposition".to_string(), "attachment; filename=\"a b.rs\"".to_string())]
    );
    assert_eq!(bytes_of(r.body), b"\x00\xff");
    assert_eq!(text_of(place().get_raw_file(ran(false, b"", b""))), (404, "file not found".to_string()));
    assert_eq!(failure_of(place().get_raw_file(not_started())), (500, "no git".to_string()));
    assert_eq!(
        failure_of(downloader().raw_file("/api/repos/demo/raw/../x").err().unwrap()),
        (400, "invalid path".to_string())
    );
}

#[test]
fn archives() {
    let branch = || downloader().on_branch(on_main()).ok().unwrap();
    let whole = branch().select(None).ok().unwrap();
    assert_eq!(whole.dir(), "demo.git");
    assert_eq!(whole.command(), ["archive", "--format=zip", "main"]);
    let some = branch().select(Some("paths=src,-x")).ok().unwrap();
    assert_eq!(some.command(), ["archive", "--format=zip", "main", "--", "src", "-x"]);
    assert_eq!(
        failure_of(branch().select(Some("paths=a,../b")).err().unwrap()),
        (400, "invalid path".to_string())
    );
    let r = response_of(whole.get_zip(ran(true, b"PK", b"")));
    assert_eq!((r.status, r.content_type.as_deref()), (200, Some("application/zip")));
    assert_eq!(
        r.headers,
        [("Content-Disposition".to_string(), "attachment; filename=\"demo.zip\"".to_string())]
    );
    assert_eq!(bytes_of(r.body), b"PK");
    assert_eq!(
        failure_of(some.get_zip(ran(false, b"", b"fatal: \xff"))),
        (400, "git archive failed: fatal: \u{fffd}".to_string())
    );
    let again = branch().select(None).ok().unwrap();
    assert_eq!(failure_of(again.get_zip(not_started())), (500, "no git".to_string()));
    assert_eq!(failure_of(archive_failed("x")), (400, "git archive failed: x".to_string()));
}
