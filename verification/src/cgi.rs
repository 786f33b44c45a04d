//! The Git smart HTTP protocol, handed to `git http-backend` and back.

use vstd::prelude::*;
use crate::access::{AccessConfig, AccessView, GroupStore, Need, Settings, SettingsView, Visitor, VisitorView,
    git_access_error, git_refusal, may};
use crate::groups::maybe_config;
use crate::outside::{lossy_text, status_code, text_from_utf8_lossy, texts};
use crate::reply::{Answer, AnswerView, Body, BodyView, Response, ResponseView, failure, failure_view, pairs};
use crate::text::{ascii_lower, contains_text, ends_with, first_at, first_index, first_word, lemma_first_after,
    lemma_first_index, lemma_no_index, number_of, occurs_at, occurs_in, parse_u16, same_ignoring_case, same_text, split, split_by,
    split_once, trim, trim_leading, trimmed, view_of, without_leading, word_of};

verus! {

/// The repository that a Git request is about and what the request needs, as the
/// path and the query of its URL show: a first segment that ends in `.git`, and a
/// push where `git-receive-pack` is asked for by path or by query.
pub open spec fn git_target(path: Seq<char>, query: Seq<char>) -> Option<(Seq<char>, Need)> {
    let rooted = without_leading(path, '/');
    match first_index(rooted, "/"@) {
        Some(i) => {
            let rest = rooted.skip(i + "/"@.len());
            if ".git"@.is_suffix_of(rooted.take(i)) {
                Some((rooted.take(i), if rest == "git-receive-pack"@ || occurs_in(query, "service=git-receive-pack"@) {
                    Need::Push
                } else {
                    Need::Download
                }))
            } else {
                None
            }
        },
        None => None,
    }
}

/// The repository that a Git request is about and what the request needs.
pub fn parse_git_repo_and_need(path_info: &str, query_string: &str) -> (target: Option<(String, Need)>)
    ensures
        match target {
            Some((repo, need)) => git_target(path_info@, query_string@) == Some((repo@, need)),
            None => git_target(path_info@, query_string@) == None::<(Seq<char>, Need)>,
        },
{
    let rooted = trim_leading(path_info, '/');
    match split_once(&rooted, "/") {
        Some((repo, rest)) => {
            if !ends_with(&repo, ".git") {
                return None;
            }
            let need = if same_text(&rest, "git-receive-pack") || contains_text(
                query_string,
                "service=git-receive-pack",
            ) {
                Need::Push
            } else {
                Need::Download
            };
            Some((repo, need))
        },
        None => None,
    }
}

/// The answer in place of what a Git request asks for: where the request is about a
/// repository that exists and the client may not have what it needs. `config` is
/// nothing where there is no such repository.
pub open spec fn git_gate_refusal(
    path: Seq<char>,
    query: Seq<char>,
    config: Option<AccessView>,
    visitor: VisitorView,
    settings: SettingsView,
    groups: Map<Seq<char>, Seq<char>>,
    authorization: Option<Seq<char>>,
) -> Option<AnswerView> {
    match (git_target(path, query), config) {
        (Some((_, need)), Some(c)) => git_refusal(visitor, settings, c, groups, need, authorization),
        _ => None,
    }
}

/// The answer in place of what a Git request asks for, if the client may not have it.
pub fn git_gate(
    path_info: &str,
    query_string: &str,
    config: &Option<AccessConfig>,
    visitor: &Visitor,
    settings: &Settings,
    groups: &GroupStore,
    authorization: Option<&str>,
) -> (refusal: Option<Answer>)
    ensures
        match refusal {
            Some(answer) => git_gate_refusal(
                path_info@,
                query_string@,
                maybe_config(*config),
                visitor@,
                settings@,
                groups@,
                view_of(authorization),
            ) == Some(answer@),
            None => git_gate_refusal(
                path_info@,
                query_string@,
                maybe_config(*config),
                visitor@,
                settings@,
                groups@,
                view_of(authorization),
            ) == None::<AnswerView>,
        },
{
    match (parse_git_repo_and_need(path_info, query_string), config) {
        (Some((_repo, need)), Some(c)) => git_access_error(visitor, settings, c, groups, need, authorization),
        _ => None,
    }
}

/// The variables, beside the directory of the repositories, that `git http-backend`
/// is run with.
pub open spec fn backend_variables(
    path_info: Seq<char>,
    query_string: Seq<char>,
    method: Seq<char>,
    content_type: Seq<char>,
) -> Seq<(Seq<char>, Seq<char>)> {
    seq![
        ("GIT_HTTP_EXPORT_ALL"@, "1"@),
        ("PATH_INFO"@, path_info),
        ("QUERY_STRING"@, query_string),
        ("REQUEST_METHOD"@, method),
        ("CONTENT_TYPE"@, content_type),
        ("REMOTE_USER"@, "rgit"@),
    ]
}

/// The variables, beside the directory of the repositories, that `git http-backend`
/// is run with.
pub fn backend_environment(path_info: &str, query_string: &str, method: &str, content_type: &str) -> (list: Vec<
    (String, String),
>)
    ensures
        pairs(list@) == backend_variables(path_info@, query_string@, method@, content_type@),
{
    let mut list: Vec<(String, String)> = Vec::new();
    list.push(("GIT_HTTP_EXPORT_ALL".to_owned(), "1".to_owned()));
    list.push(("PATH_INFO".to_owned(), path_info.to_owned()));
    list.push(("QUERY_STRING".to_owned(), query_string.to_owned()));
    list.push(("REQUEST_METHOD".to_owned(), method.to_owned()));
    list.push(("CONTENT_TYPE".to_owned(), content_type.to_owned()));
    list.push(("REMOTE_USER".to_owned(), "rgit".to_owned()));
    assert(pairs(list@) =~= backend_variables(path_info@, query_string@, method@, content_type@));
    list
}

/// The bytes between the head and the body of CGI output.
pub open spec fn blank_line() -> Seq<u8> {
    seq![13u8, 10u8, 13u8, 10u8]
}

/// The name and the value of a header line, without the white space around them.
pub open spec fn field_of(line: Seq<char>) -> Option<(Seq<char>, Seq<char>)> {
    match first_index(line, ":"@) {
        Some(i) => Some((trimmed(line.take(i)), trimmed(line.skip(i + ":"@.len())))),
        None => None,
    }
}

/// A header name that carries the status.
pub open spec fn is_status_name(name: Seq<char>) -> bool {
    ascii_lower(name) == ascii_lower("Status"@)
}

/// The status that the value of a status header names: its first word, a number
/// from 100 to 999.
pub open spec fn status_in(value: Seq<char>) -> Option<u16> {
    match word_of(value) {
        Some(word) => match number_of(word) {
            Some(code) => if 100 <= code <= 999 {
                Some(code)
            } else {
                None
            },
            None => None,
        },
        None => None,
    }
}

/// The status that a header line sets.
pub open spec fn status_set_by(line: Seq<char>) -> Option<u16> {
    match field_of(line) {
        Some((name, value)) => if is_status_name(name) {
            status_in(value)
        } else {
            None
        },
        None => None,
    }
}

/// The status that header lines set: the last one that sets any decides, and it is
/// 200 where none does.
pub open spec fn status_of_head(lines: Seq<Seq<char>>) -> u16
    decreases lines.len(),
{
    if lines.len() == 0 {
        200
    } else {
        match status_set_by(lines.last()) {
            Some(code) => code,
            None => status_of_head(lines.drop_last()),
        }
    }
}

/// The headers that header lines give, other than the status, in order.
pub open spec fn headers_of_head(lines: Seq<Seq<char>>) -> Seq<(Seq<char>, Seq<char>)>
    decreases lines.len(),
{
    if lines.len() == 0 {
        Seq::empty()
    } else {
        let before = headers_of_head(lines.drop_last());
        match field_of(lines.last()) {
            Some((name, value)) => if is_status_name(name) {
                before
            } else {
                before.push((name, value))
            },
            None => before,
        }
    }
}

/// The response that a head and a body make.
pub open spec fn cgi_response_view(head: Seq<char>, body: Seq<u8>) -> ResponseView {
    let lines = split_by(head, "\r\n"@);
    ResponseView {
        status: status_of_head(lines),
        content_type: None,
        headers: headers_of_head(lines),
        body: BodyView::Bytes(body),
    }
}

/// The answer that CGI output stands for: a head, a blank line and a body.
pub open spec fn cgi_answer(raw: Seq<u8>) -> AnswerView {
    match first_index(raw, blank_line()) {
        Some(i) => AnswerView::Response(cgi_response_view(lossy_text(raw.take(i)), raw.skip(i + 4))),
        None => failure_view(500, "malformed CGI output from git http-backend"@),
    }
}

/// The status that the value of a status header names.
fn read_status(value: &str) -> (status: Option<u16>)
    ensures
        status == status_in(value@),
{
    match first_word(value) {
        Some(word) => match parse_u16(&word) {
            Some(code) => status_code(code),
            None => None,
        },
        None => None,
    }
}

/// The response that a head and a body make.
pub fn cgi_response(head: &str, body: Vec<u8>) -> (response: Response)
    ensures
        response@ == cgi_response_view(head@, body@),
{
    proof {
        reveal_strlit("\r\n");
    }
    let lines = split(head, "\r\n");
    let mut status: u16 = 200;
    let mut headers: Vec<(String, String)> = Vec::new();
    let mut i: usize = 0;
    let ghost all = texts(lines@);
    assert(all.take(0) =~= Seq::<Seq<char>>::empty());
    assert(pairs(headers@) =~= Seq::<(Seq<char>, Seq<char>)>::empty());
    while i < lines.len()
        invariant
            i <= lines@.len(),
            all == texts(lines@),
            status == status_of_head(all.take(i as int)),
            pairs(headers@) == headers_of_head(all.take(i as int)),
        decreases lines@.len() - i,
    {
        let ghost seen = all.take(i + 1);
        assert(seen.drop_last() =~= all.take(i as int));
        assert(seen.last() == lines@[i as int]@);
        match split_once(&lines[i], ":") {
            Some((left, right)) => {
                let name = trim(&left);
                let value = trim(&right);
                if same_ignoring_case(&name, "Status") {
                    match read_status(&value) {
                        Some(code) => {
                            status = code;
                        },
                        None => {},
                    }
                } else {
                    let ghost before = headers@;
                    headers.push((name, value));
                    assert(pairs(headers@) =~= pairs(before).push((name@, value@)));
                }
            },
            None => {},
        }
        i += 1;
    }
    assert(all.take(i as int) =~= all);
    Response { status, content_type: None, headers, body: Body::Bytes(body) }
}

/// Where the first blank line of CGI output stands.
fn find_blank_line(raw: &[u8]) -> (at: Option<usize>)
    ensures
        match at {
            Some(i) => first_at(raw@, blank_line(), i as int) && first_index(raw@, blank_line()) == Some(i as int),
            None => first_index(raw@, blank_line()) == None::<int>,
        },
{
    let length: usize = raw.len();
    let mut i: usize = 0;
    while i < length && length - i >= 4
        invariant
            length == raw@.len(),
            i <= length,
            forall|j: int| j < i ==> !occurs_at(raw@, blank_line(), j),
        decreases length - i,
    {
        let here = raw[i] == 13 && raw[i + 1] == 10 && raw[i + 2] == 13 && raw[i + 3] == 10;
        assert(here == occurs_at(raw@, blank_line(), i as int)) by {
            let window = raw@.subrange(i as int, i + 4);
            if here {
                assert(window =~= blank_line());
            }
            if window == blank_line() {
                assert(window[0] == 13 && window[1] == 10 && window[2] == 13 && window[3] == 10);
            }
        }
        if here {
            proof {
                lemma_first_index(raw@, blank_line(), i as int);
            }
            return Some(i);
        }
        i += 1;
    }
    proof {
        lemma_no_index(raw@, blank_line());
    }
    None
}

/// The answer that the output of `git http-backend` stands for.
pub fn parse_cgi_response(raw: &[u8]) -> (answer: Answer)
    ensures
        answer@ == cgi_answer(raw@),
{
    let length: usize = raw.len();
    match find_blank_line(raw) {
        Some(i) => {
            let head = vstd::slice::slice_subrange(raw, 0, i);
            let rest = vstd::slice::slice_subrange(raw, i + 4, length);
            assert(head@ =~= raw@.take(i as int));
            assert(rest@ =~= raw@.skip(i + 4));
            let body = vstd::slice::slice_to_vec(rest);
            Answer::Response(cgi_response(&text_from_utf8_lossy(head), body))
        },
        None => failure(500, "malformed CGI output from git http-backend"),
    }
}

/// How a run of `git http-backend` went.
pub enum BackendRun {
    /// The body of the request could not be read.
    Unreadable(String),
    /// The program could not be started.
    NotStarted(String),
    /// The program could not be fed or waited for.
    Broken(String),
    /// What the program wrote.
    Output(Vec<u8>),
}

/// What a [`BackendRun`] says.
pub enum BackendView {
    Unreadable(Seq<char>),
    NotStarted(Seq<char>),
    Broken(Seq<char>),
    Output(Seq<u8>),
}

impl View for BackendRun {
    type V = BackendView;

    open spec fn view(&self) -> BackendView {
        match self {
            BackendRun::Unreadable(message) => BackendView::Unreadable(message@),
            BackendRun::NotStarted(message) => BackendView::NotStarted(message@),
            BackendRun::Broken(message) => BackendView::Broken(message@),
            BackendRun::Output(raw) => BackendView::Output(raw@),
        }
    }
}

/// The answer after a run of `git http-backend`.
pub open spec fn backend_answer(run: BackendView) -> AnswerView {
    match run {
        BackendView::Unreadable(message) => failure_view(400, message),
        BackendView::NotStarted(message) => failure_view(500, "failed to spawn git http-backend: "@ + message),
        BackendView::Broken(message) => failure_view(500, message),
        BackendView::Output(raw) => cgi_answer(raw),
    }
}

/// The answer after a run of `git http-backend`.
pub fn git_http_backend(run: BackendRun) -> (answer: Answer)
    ensures
        answer@ == backend_answer(run@),
{
    match run {
        BackendRun::Unreadable(message) => Answer::Failure { status: 400, message },
        BackendRun::NotStarted(message) => Answer::Failure {
            status: 500,
            message: "failed to spawn git http-backend: ".to_owned().concat(&message),
        },
        BackendRun::Broken(message) => Answer::Failure { status: 500, message },
        BackendRun::Output(raw) => parse_cgi_response(&raw),
    }
}

/// The body of CGI output reaches the client byte for byte, whatever it holds and
/// whatever its head says, when no blank line ends the head earlier.
pub proof fn law_body_is_kept(head: Seq<u8>, body: Seq<u8>)
    requires
        !occurs_in(head + seq![13u8, 10u8, 13u8], blank_line()),
    ensures
        cgi_answer(head + blank_line() + body) == AnswerView::Response(cgi_response_view(lossy_text(head), body)),
        cgi_answer(head + seq![13u8, 10u8, 13u8, 10u8] + body) matches AnswerView::Response(r) && r.body
            == BodyView::Bytes(body),
{
    let n = head.len() as int;
    assert(blank_line().drop_last() =~= seq![13u8, 10u8, 13u8]);
    lemma_first_after(head, blank_line(), body);
    let raw = head + blank_line() + body;
    assert(raw.take(n) =~= head);
    assert(raw.skip(n + 4) =~= body);
}

/// Without a header that names it, the status is 200.
pub proof fn law_status_defaults_to_200(lines: Seq<Seq<char>>)
    requires
        forall|i: int| 0 <= i < lines.len() ==> status_set_by(#[trigger] lines[i]) is None,
    ensures
        status_of_head(lines) == 200,
    decreases lines.len(),
{
    if lines.len() > 0 {
        assert(status_set_by(lines[lines.len() - 1]) is None);
        assert forall|i: int| 0 <= i < lines.drop_last().len() implies status_set_by(
            #[trigger] lines.drop_last()[i],
        ) is None by {
            assert(lines.drop_last()[i] == lines[i]);
        }
        law_status_defaults_to_200(lines.drop_last());
    }
}

/// The status is one that HTTP knows: a number from 100 to 999.
pub proof fn law_status_is_in_range(lines: Seq<Seq<char>>)
    ensures
        100 <= status_of_head(lines) <= 999,
    decreases lines.len(),
{
    if lines.len() > 0 {
        law_status_is_in_range(lines.drop_last());
    }
}

/// A single slash in front of something else is the whole run of leading slashes.
#[verifier::spinoff_prover]
proof fn lemma_one_slash(rooted: Seq<char>)
    requires
        rooted.len() > 0,
        rooted[0] != '/',
    ensures
        without_leading(seq!['/'] + rooted, '/') == rooted,
{
    reveal_with_fuel(without_leading, 2);
    let path = seq!['/'] + rooted;
    assert(path[0] == '/');
    assert(path.skip(1) =~= rooted);
}

/// The first slash after a segment is found.
#[verifier::spinoff_prover]
proof fn lemma_slash_after(repo: Seq<char>, rest: Seq<char>)
    requires
        !repo.contains('/'),
    ensures
        first_index(repo + "/"@ + rest, "/"@) == Some(repo.len() as int),
        "/"@ == seq!['/'],
{
    reveal_strlit("/");
    let slash = "/"@;
    assert(slash =~= seq!['/']);
    assert(repo + slash.drop_last() =~= repo);
    assert(!occurs_in(repo, slash)) by {
        if occurs_in(repo, slash) {
            let i = choose|i: int| occurs_at(repo, slash, i);
            assert(repo.subrange(i, i + 1)[0] == '/');
            assert(repo[i] == '/');
        }
    }
    lemma_first_after(repo, slash, rest);
}

/// The first segment of a path is found.
#[verifier::spinoff_prover]
proof fn lemma_first_segment(repo: Seq<char>, rest: Seq<char>, query: Seq<char>)
    requires
        !repo.contains('/'),
        ".git"@.is_suffix_of(repo),
    ensures
        git_target(seq!['/'] + repo + seq!['/'] + rest, query) == Some(
            (repo, if rest == "git-receive-pack"@ || occurs_in(query, "service=git-receive-pack"@) {
                Need::Push
            } else {
                Need::Download
            }),
        ),
{
    lemma_slash_after(repo, rest);
    let rooted = repo + "/"@ + rest;
    assert(repo.len() > 0 && repo[0] != '/') by {
        reveal_strlit(".git");
        assert(repo.contains(repo[0]));
    }
    assert(rooted[0] == repo[0]);
    lemma_one_slash(rooted);
    assert(seq!['/'] + repo + seq!['/'] + rest =~= seq!['/'] + rooted);
    assert(rooted.take(repo.len() as int) =~= repo);
    assert(rooted.skip(repo.len() as int + "/"@.len()) =~= rest);
}

/// A push, whether it sends its data or asks for the references first, needs the
/// right to push to the repository that its path names.
pub proof fn law_push_is_recognised(repo: Seq<char>, rest: Seq<char>, query: Seq<char>)
    requires
        !repo.contains('/'),
        ".git"@.is_suffix_of(repo),
        rest == "git-receive-pack"@ || occurs_in(query, "service=git-receive-pack"@),
    ensures
        git_target(seq!['/'] + repo + seq!['/'] + rest, query) == Some((repo, Need::Push)),
{
    lemma_first_segment(repo, rest, query);
}

/// Every other request to a repository, such as a clone or a fetch, needs the right
/// to download from it.
pub proof fn law_fetch_needs_download(repo: Seq<char>, rest: Seq<char>, query: Seq<char>)
    requires
        !repo.contains('/'),
        ".git"@.is_suffix_of(repo),
        rest != "git-receive-pack"@,
        !occurs_in(query, "service=git-receive-pack"@),
    ensures
        git_target(seq!['/'] + repo + seq!['/'] + rest, query) == Some((repo, Need::Download)),
{
    lemma_first_segment(repo, rest, query);
}

/// Clone, fetch and push obey the access settings: a request that reaches Git and is
/// about a repository that exists comes from somebody who may do what it needs.
pub proof fn law_git_obeys_access(
    path: Seq<char>,
    query: Seq<char>,
    config: AccessView,
    visitor: VisitorView,
    settings: SettingsView,
    groups: Map<Seq<char>, Seq<char>>,
    authorization: Option<Seq<char>>,
)
    requires
        git_gate_refusal(path, query, Some(config), visitor, settings, groups, authorization) is None,
        git_target(path, query) is Some,
    ensures
        may(visitor, settings, config, groups, (git_target(path, query)->0).1),
{
}

/// Output without a blank line is no CGI output.
pub proof fn law_output_needs_a_blank_line(raw: Seq<u8>)
    ensures
        (forall|i: int|
            0 <= i < raw.len() - 3 ==> !(#[trigger] raw[i] == 13 && raw[i + 1] == 10 && raw[i + 2] == 13 && raw[i + 3]
                == 10)) ==> cgi_answer(raw) == (AnswerView::Failure {
            status: 500,
            message: "malformed CGI output from git http-backend"@,
        }),
        cgi_answer(raw) is Failure ==> forall|a: Seq<u8>, b: Seq<u8>| raw != #[trigger] (a + blank_line() + b),
        blank_line() == seq![13u8, 10u8, 13u8, 10u8],
{
    crate::text::law_first_place(raw, blank_line());
    match first_index(raw, blank_line()) {
        Some(i) => {
            let whole = raw.take(i) + blank_line() + raw.skip(i + blank_line().len());
            assert(whole[i] == 13 && whole[i + 1] == 10 && whole[i + 2] == 13 && whole[i + 3] == 10);
            assert(raw[i] == 13 && raw[i + 1] == 10 && raw[i + 2] == 13 && raw[i + 3] == 10);
        },
        None => {},
    }
}

/// The line that gives a header.
pub open spec fn header_line(name: Seq<char>, value: Seq<char>) -> Seq<char> {
    name + seq![':', ' '] + value
}

/// No white space stands at either end.
pub open spec fn is_bare(text: Seq<char>) -> bool {
    text.len() == 0 || (!crate::text::is_white_space(text[0]) && !crate::text::is_white_space(text.last()))
}

/// A name and a value that a header line can give.
pub open spec fn is_field(name: Seq<char>, value: Seq<char>) -> bool {
    !name.contains(':') && !name.contains('\r') && is_bare(name) && !value.contains('\r') && is_bare(value)
}

/// A header line gives its name and its value.
proof fn lemma_field_of_line(name: Seq<char>, value: Seq<char>)
    requires
        is_field(name, value),
    ensures
        field_of(header_line(name, value)) == Some((name, value)),
{
    reveal_strlit(":");
    let colon = ":"@;
    assert(colon =~= seq![':']);
    let line = header_line(name, value);
    let tail = seq![' '] + value;
    assert(line =~= name + colon + tail);
    crate::text::lemma_not_inside(name, colon);
    lemma_first_after(name, colon, tail);
    let none = Seq::<char>::empty();
    assert(line.take(name.len() as int) =~= none + name + none);
    assert(line.skip(name.len() as int + colon.len()) =~= seq![' '] + value + none);
    crate::text::law_trimming_takes_off_white_space(none, name, none);
    crate::text::law_trimming_takes_off_white_space(seq![' '], value, none);
}

/// A status header is one whose name is `status` in small or capital letters.
pub proof fn law_status_header_in_any_case(name: Seq<char>)
    ensures
        is_status_name(name) <==> ascii_lower(name) == seq!['s', 't', 'a', 't', 'u', 's'],
{
    reveal_strlit("Status");
    assert(ascii_lower("Status"@) =~= seq!['s', 't', 'a', 't', 'u', 's']);
}

/// Of several lines that set the status the last one decides; a line that sets none
/// changes nothing. Each line that is no status adds its header behind the others.
pub proof fn law_lines_count_one_by_one(lines: Seq<Seq<char>>, line: Seq<char>, name: Seq<char>, value: Seq<char>)
    ensures
        status_of_head(Seq::<Seq<char>>::empty()) == 200,
        headers_of_head(Seq::<Seq<char>>::empty()).len() == 0,
        status_set_by(line) matches Some(code) ==> status_of_head(lines.push(line)) == code,
        status_set_by(line) is None ==> status_of_head(lines.push(line)) == status_of_head(lines),
        is_field(name, value) && ascii_lower(name) != seq!['s', 't', 'a', 't', 'u', 's'] ==> headers_of_head(
            lines.push(header_line(name, value)),
        ) == headers_of_head(lines).push((name, value)) && status_of_head(lines.push(header_line(name, value)))
            == status_of_head(lines),
        is_field(name, value) && ascii_lower(name) == seq!['s', 't', 'a', 't', 'u', 's'] ==> headers_of_head(
            lines.push(header_line(name, value)),
        ) == headers_of_head(lines),
        !line.contains(':') ==> headers_of_head(lines.push(line)) == headers_of_head(lines) && status_of_head(
            lines.push(line),
        ) == status_of_head(lines),
{
    assert(lines.push(line).drop_last() =~= lines);
    assert(lines.push(header_line(name, value)).drop_last() =~= lines);
    law_status_header_in_any_case(name);
    if is_field(name, value) {
        lemma_field_of_line(name, value);
    }
    if !line.contains(':') {
        reveal_strlit(":");
        crate::text::lemma_not_inside(line, ":"@);
        lemma_no_index(line, ":"@);
    }
}

/// A status line sets the status that it names: a number from 100 to 999, alone or with
/// words behind it.
pub proof fn law_status_line_sets_the_status(code: nat, words: Seq<char>)
    requires
        100 <= code <= 999,
        is_bare(words),
        words.len() > 0,
        !words.contains('\r'),
    ensures
        status_set_by(header_line("Status"@, crate::text::decimal_of(code))) == Some(code as u16),
        status_set_by(header_line("Status"@, crate::text::decimal_of(code) + seq![' '] + words)) == Some(code as u16),
{
    reveal_strlit("Status");
    let digits = crate::text::decimal_of(code);
    let none = Seq::<char>::empty();
    crate::text::law_decimal_writes_the_number(code);
    assert forall|k: int| 0 <= k < digits.len() implies '0' <= #[trigger] digits[k] <= '9' by {}
    crate::text::law_numbers(digits, 0);
    assert forall|k: int| 0 <= k < digits.len() implies !crate::text::is_white_space(#[trigger] digits[k]) by {
        assert('0' <= digits[k] <= '9');
    }
    assert(!digits.contains('\r')) by {
        if digits.contains('\r') {
            let k = choose|k: int| 0 <= k < digits.len() && digits[k] == '\r';
            assert('0' <= digits[k] <= '9');
        }
    }
    let name = "Status"@;
    assert(ascii_lower(name) =~= seq!['s', 't', 'a', 't', 'u', 's']);
    law_status_header_in_any_case(name);
    assert(is_field(name, digits));
    lemma_field_of_line(name, digits);
    crate::text::law_first_word(none, digits, none);
    assert(none + digits + none =~= digits);
    let value = digits + seq![' '] + words;
    assert(value[0] == digits[0] && value.last() == words.last());
    assert(!value.contains('\r')) by {
        if value.contains('\r') {
            let k = choose|k: int| 0 <= k < value.len() && value[k] == '\r';
            if k < digits.len() {
                assert(digits[k] == '\r');
            } else if k > digits.len() {
                assert(words[k - digits.len() - 1] == '\r');
            }
        }
    }
    assert(is_field(name, value));
    lemma_field_of_line(name, value);
    let rest = seq![' '] + words;
    crate::text::law_first_word(none, digits, rest);
    assert(none + digits + rest =~= value);
}

/// The lines that give headers.
pub open spec fn header_lines(fields: Seq<(Seq<char>, Seq<char>)>) -> Seq<Seq<char>> {
    fields.map_values(|f: (Seq<char>, Seq<char>)| header_line(f.0, f.1))
}

/// Lines that give headers give those headers and no status.
proof fn lemma_header_lines(first: Seq<Seq<char>>, fields: Seq<(Seq<char>, Seq<char>)>)
    requires
        forall|i: int|
            0 <= i < fields.len() ==> is_field((#[trigger] fields[i]).0, fields[i].1) && ascii_lower(fields[i].0) != seq![
                's',
                't',
                'a',
                't',
                'u',
                's',
            ],
    ensures
        headers_of_head(first + header_lines(fields)) == headers_of_head(first) + fields,
        status_of_head(first + header_lines(fields)) == status_of_head(first),
    decreases fields.len(),
{
    if fields.len() == 0 {
        assert(first + header_lines(fields) =~= first);
        assert(headers_of_head(first) + fields =~= headers_of_head(first));
    } else {
        let fewer = fields.drop_last();
        let last = fields.last();
        assert forall|i: int| 0 <= i < fewer.len() implies is_field((#[trigger] fewer[i]).0, fewer[i].1) && ascii_lower(
            fewer[i].0,
        ) != seq!['s', 't', 'a', 't', 'u', 's'] by {
            assert(fewer[i] == fields[i]);
        }
        assert(is_field(fields[fields.len() - 1].0, fields[fields.len() - 1].1));
        lemma_header_lines(first, fewer);
        let lines = first + header_lines(fewer);
        assert(first + header_lines(fields) =~= lines.push(header_line(last.0, last.1)));
        law_lines_count_one_by_one(lines, Seq::empty(), last.0, last.1);
        assert((headers_of_head(first) + fewer).push(last) =~= headers_of_head(first) + fields);
    }
}

/// A header line holds no carriage return.
proof fn lemma_line_has_no_return(name: Seq<char>, value: Seq<char>)
    requires
        is_field(name, value),
    ensures
        !header_line(name, value).contains('\r'),
{
    let line = header_line(name, value);
    if line.contains('\r') {
        let k = choose|k: int| 0 <= k < line.len() && line[k] == '\r';
        if k < name.len() {
            assert(name[k] == '\r');
        } else if k >= name.len() + 2 {
            assert(value[k - name.len() - 2] == '\r');
        }
    }
}

/// Headers that `git http-backend` writes, one to a line, reach the client, each with its
/// name and its value and in the same order, and the body with them; the status is 200.
pub proof fn law_headers_reach_the_client(fields: Seq<(Seq<char>, Seq<char>)>, body: Seq<u8>)
    requires
        fields.len() > 0,
        forall|i: int|
            0 <= i < fields.len() ==> is_field((#[trigger] fields[i]).0, fields[i].1) && ascii_lower(fields[i].0) != seq![
                's',
                't',
                'a',
                't',
                'u',
                's',
            ],
    ensures
        cgi_response_view(crate::text::joined_by(header_lines(fields), seq!['\r', '\n']), body) == (ResponseView {
            status: 200,
            content_type: None,
            headers: fields,
            body: BodyView::Bytes(body),
        }),
{
    reveal_strlit("\r\n");
    let feed = "\r\n"@;
    assert(feed =~= seq!['\r', '\n']);
    let lines = header_lines(fields);
    assert forall|i: int| 0 <= i < lines.len() implies !(#[trigger] lines[i]).contains(feed[0]) by {
        assert(is_field(fields[i].0, fields[i].1));
        lemma_line_has_no_return(fields[i].0, fields[i].1);
    }
    crate::text::law_join_then_split(lines, feed);
    let none = Seq::<Seq<char>>::empty();
    lemma_header_lines(none, fields);
    assert(none + lines =~= lines);
    assert(headers_of_head(none) + fields =~= fields);
}

/// A status that `git http-backend` writes in front of the headers reaches the client
/// with them.
pub proof fn law_status_reaches_the_client(
    code: nat,
    words: Seq<char>,
    fields: Seq<(Seq<char>, Seq<char>)>,
    body: Seq<u8>,
)
    requires
        100 <= code <= 999,
        is_bare(words),
        words.len() > 0,
        !words.contains('\r'),
        forall|i: int|
            0 <= i < fields.len() ==> is_field((#[trigger] fields[i]).0, fields[i].1) && ascii_lower(fields[i].0) != seq![
                's',
                't',
                'a',
                't',
                'u',
                's',
            ],
    ensures
        cgi_response_view(
            crate::text::joined_by(
                seq![header_line("Status"@, crate::text::decimal_of(code) + seq![' '] + words)] + header_lines(fields),
                seq!['\r', '\n'],
            ),
            body,
        ) == (ResponseView { status: code as u16, content_type: None, headers: fields, body: BodyView::Bytes(body) }),
{
    reveal_strlit("\r\n");
    reveal_strlit("Status");
    let feed = "\r\n"@;
    assert(feed =~= seq!['\r', '\n']);
    let digits = crate::text::decimal_of(code);
    let value = digits + seq![' '] + words;
    let line = header_line("Status"@, value);
    law_status_line_sets_the_status(code, words);
    crate::text::law_decimal_writes_the_number(code);
    assert(!line.contains('\r')) by {
        if line.contains('\r') {
            let k = choose|k: int| 0 <= k < line.len() && line[k] == '\r';
            let n = "Status"@.len() as int;
            assert("Status"@.len() == 6);
            if n + 2 <= k < n + 2 + digits.len() {
                assert(line[k] == digits[k - n - 2]);
            } else if k > n + 2 + digits.len() {
                assert(line[k] == words[k - n - 3 - digits.len()]);
            }
        }
    }
    let first = seq![line];
    let lines = first + header_lines(fields);
    assert forall|i: int| 0 <= i < lines.len() implies !(#[trigger] lines[i]).contains(feed[0]) by {
        if i > 0 {
            assert(lines[i] == header_line(fields[i - 1].0, fields[i - 1].1));
            assert(is_field(fields[i - 1].0, fields[i - 1].1));
            lemma_line_has_no_return(fields[i - 1].0, fields[i - 1].1);
        }
    }
    crate::text::law_join_then_split(lines, feed);
    lemma_header_lines(first, fields);
    let none = Seq::<Seq<char>>::empty();
    assert(first =~= none.push(line));
    law_lines_count_one_by_one(none, line, Seq::empty(), Seq::empty());
    assert(headers_of_head(first) =~= Seq::<(Seq<char>, Seq<char>)>::empty()) by {
        assert(status_set_by(line) is Some);
        assert(first.drop_last() =~= none);
    }
    assert(headers_of_head(first) + fields =~= fields);
}

/// The head of CGI output is read as the text that it is.
pub proof fn law_head_is_read_as_text(head: Seq<char>, body: Seq<u8>)
    requires
        !occurs_in(vstd::utf8::encode_utf8(head) + seq![13u8, 10u8, 13u8], blank_line()),
    ensures
        cgi_answer(vstd::utf8::encode_utf8(head) + seq![13u8, 10u8, 13u8, 10u8] + body) == AnswerView::Response(
            cgi_response_view(head, body),
        ),
{
    law_body_is_kept(vstd::utf8::encode_utf8(head), body);
    crate::percent::law_plain_text_stays(head);
}

/// A request whose first path segment does not end in `.git` is about no repository, nor
/// is one with a single segment; slashes in front count for nothing.
pub proof fn law_other_paths_are_no_repository(segment: Seq<char>, rest: Seq<char>, path: Seq<char>, query: Seq<char>)
    requires
        !segment.contains('/'),
    ensures
        git_target(segment, query) is None,
        !".git"@.is_suffix_of(segment) && segment.len() > 0 ==> git_target(segment + seq!['/'] + rest, query) is None,
        git_target(seq!['/'] + path, query) == git_target(path, query),
{
    crate::text::law_leading_run_is_taken_off(path, '/');
    crate::text::law_leading_run_is_taken_off(segment, '/');
    lemma_slash_after(segment, rest);
    if segment.len() > 0 {
        assert(segment.contains(segment[0]));
    }
    crate::text::lemma_not_inside(segment, "/"@);
    lemma_no_index(segment, "/"@);
    let whole = segment + seq!['/'] + rest;
    if segment.len() > 0 {
        assert(whole[0] == segment[0]);
        crate::text::law_leading_run_is_taken_off(whole, '/');
        assert(whole.take(segment.len() as int) =~= segment);
    }
}

/// A Git request is held back only where it is about a repository that exists and the
/// client may not do what it needs there; who may is let through.
pub proof fn law_git_is_held_back_only_there(
    path: Seq<char>,
    query: Seq<char>,
    config: AccessView,
    visitor: VisitorView,
    settings: SettingsView,
    groups: Map<Seq<char>, Seq<char>>,
    authorization: Option<Seq<char>>,
)
    ensures
        git_gate_refusal(path, query, None, visitor, settings, groups, authorization) is None,
        git_target(path, query) is None ==> git_gate_refusal(
            path,
            query,
            Some(config),
            visitor,
            settings,
            groups,
            authorization,
        ) is None,
        git_target(path, query) matches Some((_, need)) ==> ({
            let refusal = git_gate_refusal(path, query, Some(config), visitor, settings, groups, authorization);
            &&& may(visitor, settings, config, groups, need) ==> refusal is None
            &&& !may(visitor, settings, config, groups, need) && authorization is None ==> (refusal matches Some(
                AnswerView::Response(r),
            ) && r.status == 401)
            &&& !may(visitor, settings, config, groups, need) && authorization is Some ==> (refusal matches Some(
                AnswerView::Response(r),
            ) && r.status == 403)
        }),
{
}

/// `git http-backend` is told the path, the query, the method and the content type of
/// the request as they are.
pub proof fn law_backend_is_told_the_request(
    path_info: Seq<char>,
    query_string: Seq<char>,
    method: Seq<char>,
    content_type: Seq<char>,
)
    ensures
        ({
            let list = backend_variables(path_info, query_string, method, content_type);
            &&& list.len() == 6
            &&& list[0] == ("GIT_HTTP_EXPORT_ALL"@, "1"@)
            &&& list[1] == ("PATH_INFO"@, path_info)
            &&& list[2] == ("QUERY_STRING"@, query_string)
            &&& list[3] == ("REQUEST_METHOD"@, method)
            &&& list[4] == ("CONTENT_TYPE"@, content_type)
            &&& list[5] == ("REMOTE_USER"@, "rgit"@)
        }),
{
}

/// A run of `git http-backend` that wrote output is answered with that output, and one
/// that failed with its message.
pub proof fn law_runs_of_the_backend(raw: Seq<u8>, message: Seq<char>)
    ensures
        backend_answer(BackendView::Output(raw)) == cgi_answer(raw),
        backend_answer(BackendView::Unreadable(message)) == (AnswerView::Failure { status: 400, message }),
        backend_answer(BackendView::Broken(message)) == (AnswerView::Failure { status: 500, message }),
        backend_answer(BackendView::NotStarted(message)) == (AnswerView::Failure {
            status: 500,
            message: "failed to spawn git http-backend: "@ + message,
        }),
{
}

/// What a run says is what it holds.
pub proof fn law_run_shows_its_fields(run: BackendRun)
    ensures
        match run {
            BackendRun::Unreadable(message) => run@ == BackendView::Unreadable(message@),
            BackendRun::NotStarted(message) => run@ == BackendView::NotStarted(message@),
            BackendRun::Broken(message) => run@ == BackendView::Broken(message@),
            BackendRun::Output(raw) => run@ == BackendView::Output(raw@),
        },
{
}

/// A status line that names no number from 100 to 999 sets nothing.
pub proof fn law_bad_status_sets_nothing(value: Seq<char>)
    requires
        is_field("Status"@, value),
        word_of(value) matches Some(word) ==> (number_of(word) matches Some(code) ==> code < 100 || code > 999),
    ensures
        status_set_by(header_line("Status"@, value)) is None,
{
    lemma_field_of_line("Status"@, value);
}

} // verus!
