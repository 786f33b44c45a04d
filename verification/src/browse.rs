//! Reading repositories: the README, the tree, single files and archives.
//!
//! Each step is a type of its own and has to succeed before the next one can be
//! taken: a name becomes a [`RepoNamed`], a directory that exists a [`RepoFound`], a
//! visitor who may view or download makes it a [`Reader`] or a [`Downloader`], and a
//! default branch lets the content be read.

use vstd::prelude::*;
use vstd::utf8::{decode_utf8, valid_utf8};
use crate::access::{AccessConfig, AccessView, GroupStore, Need, Settings, SettingsView, Visitor, VisitorView,
    access_refusal, check_access, may};
use crate::names::{archive_paths, asked_paths, check_paths, leads_out, paths_refusal, raw_file_path, raw_path,
    repo_dir, repo_name_refusal, sanitize_repo_name};
use crate::outside::{json_object, json_outline, lossy_text, text_from_utf8, text_from_utf8_lossy, text_under, texts};
use crate::reply::{Answer, AnswerView, Body, BodyView, body_response, body_view, failure, failure_view, header_view,
    names_response, names_view, object_response, object_view, pairs, reads_names, response, response_view, status_of, with_header};
use crate::pages::branch_and_content;
use crate::repos::{GitRun, GitView};
use crate::text::{after_last, lines, lines_of, tail_after, trim, trimmed, view_of};

verus! {

/// A request for something that a repository holds, as far as it is the same for all
/// of them.
pub struct Asked {
    pub name: Seq<char>,
    pub exists: bool,
    pub visitor: VisitorView,
    pub settings: SettingsView,
    pub config: AccessView,
    pub groups: Map<Seq<char>, Seq<char>>,
}

/// The answer where there is no such repository.
pub open spec fn missing_refusal(exists: bool) -> Option<AnswerView> {
    if exists {
        None
    } else {
        Some(response_view(404, "repository not found"@))
    }
}

/// The answer to a request that does not get as far as the content: to a bad name,
/// where there is no such repository, and to a visitor who may not have what the
/// request needs.
pub open spec fn entry_refusal(asked: Asked, need: Need) -> Option<AnswerView> {
    if repo_name_refusal(asked.name) is Some {
        repo_name_refusal(asked.name)
    } else if missing_refusal(asked.exists) is Some {
        missing_refusal(asked.exists)
    } else {
        access_refusal(asked.visitor, asked.settings, asked.config, asked.groups, need)
    }
}

/// A repository that a request names.
pub struct RepoNamed {
    name: String,
    dir: String,
}

impl View for RepoNamed {
    type V = Seq<char>;

    /// The name.
    closed spec fn view(&self) -> Seq<char> {
        self.name@
    }
}

/// The repository that a request names.
pub fn open_repo(name: &str) -> (result: Result<RepoNamed, Answer>)
    ensures
        match result {
            Ok(repo) => repo_name_refusal(name@) == None::<AnswerView> && repo@ == name@,
            Err(answer) => repo_name_refusal(name@) == Some(answer@) && forall|asked: Asked, need: Need|
                asked.name == name@ ==> #[trigger] entry_refusal(asked, need) == Some(answer@),
        },
{
    match sanitize_repo_name(name) {
        Ok(dir) => Ok(RepoNamed { name: name.to_owned(), dir }),
        Err(answer) => Err(answer),
    }
}

/// A repository that exists.
pub struct RepoFound {
    name: String,
    dir: String,
}

impl View for RepoFound {
    type V = Seq<char>;

    /// The name.
    closed spec fn view(&self) -> Seq<char> {
        self.name@
    }
}

impl RepoNamed {
    #[verifier::type_invariant]
    spec fn passed(self) -> bool {
        repo_name_refusal(self.name@) is None && self.dir@ == repo_dir(self.name@)
    }

    /// The directory of the repository.
    pub fn dir(&self) -> (dir: &str)
        ensures
            dir@ == repo_dir(self@),
    {
        proof {
            use_type_invariant(self);
        }
        &self.dir
    }

    /// Goes on where the repository exists.
    pub fn found(self, exists: bool) -> (result: Result<RepoFound, Answer>)
        ensures
            match result {
                Ok(repo) => exists && repo@ == self@,
                Err(answer) => missing_refusal(exists) == Some(answer@) && forall|asked: Asked, need: Need|
                    asked.name == self@ && asked.exists == exists ==> #[trigger] entry_refusal(asked, need) == Some(
                        answer@,
                    ),
            },
    {
        proof {
            use_type_invariant(&self);
        }
        if exists {
            Ok(RepoFound { name: self.name, dir: self.dir })
        } else {
            Err(response(404, "repository not found"))
        }
    }
}

/// The request of a visitor for something that an existing repository holds.
pub open spec fn asked_by(
    name: Seq<char>,
    visitor: VisitorView,
    settings: SettingsView,
    config: AccessView,
    groups: Map<Seq<char>, Seq<char>>,
) -> Asked {
    Asked { name, exists: true, visitor, settings, config, groups }
}

/// A repository and a visitor who may view it.
pub struct Reader {
    dir: String,
    asked: Ghost<Asked>,
}

impl View for Reader {
    type V = Asked;

    closed spec fn view(&self) -> Asked {
        self.asked@
    }
}

/// A repository and a visitor who may download from it.
pub struct Downloader {
    name: String,
    dir: String,
    asked: Ghost<Asked>,
}

impl View for Downloader {
    type V = Asked;

    closed spec fn view(&self) -> Asked {
        self.asked@
    }
}

impl RepoFound {
    #[verifier::type_invariant]
    spec fn passed(self) -> bool {
        repo_name_refusal(self.name@) is None && self.dir@ == repo_dir(self.name@)
    }

    /// The directory of the repository.
    pub fn dir(&self) -> (dir: &str)
        ensures
            dir@ == repo_dir(self@),
    {
        proof {
            use_type_invariant(self);
        }
        &self.dir
    }

    /// Goes on where the visitor may view the repository.
    pub fn view_as(
        self,
        visitor: &Visitor,
        settings: &Settings,
        config: &AccessConfig,
        groups: &GroupStore,
    ) -> (result: Result<Reader, Answer>)
        ensures
            match result {
                Ok(repo) => repo@ == asked_by(self@, visitor@, settings@, config@, groups@) && entry_refusal(
                    repo@,
                    Need::View,
                ) == None::<AnswerView>,
                Err(answer) => entry_refusal(
                    asked_by(self@, visitor@, settings@, config@, groups@),
                    Need::View,
                ) == Some(answer@),
            },
    {
        proof {
            use_type_invariant(&self);
        }
        let ghost asked = asked_by(self.name@, visitor@, settings@, config@, groups@);
        match check_access(visitor, settings, config, groups, Need::View) {
            Ok(()) => Ok(Reader { dir: self.dir, asked: Ghost(asked) }),
            Err(answer) => Err(answer),
        }
    }

    /// Goes on where the visitor may download from the repository.
    pub fn download_as(
        self,
        visitor: &Visitor,
        settings: &Settings,
        config: &AccessConfig,
        groups: &GroupStore,
    ) -> (result: Result<Downloader, Answer>)
        ensures
            match result {
                Ok(repo) => repo@ == asked_by(self@, visitor@, settings@, config@, groups@) && entry_refusal(
                    repo@,
                    Need::Download,
                ) == None::<AnswerView>,
                Err(answer) => entry_refusal(
                    asked_by(self@, visitor@, settings@, config@, groups@),
                    Need::Download,
                ) == Some(answer@),
            },
    {
        proof {
            use_type_invariant(&self);
        }
        let ghost asked = asked_by(self.name@, visitor@, settings@, config@, groups@);
        match check_access(visitor, settings, config, groups, Need::Download) {
            Ok(()) => Ok(Downloader { name: self.name, dir: self.dir, asked: Ghost(asked) }),
            Err(answer) => Err(answer),
        }
    }
}

/// The arguments with which `git` names the branch that a repository is on, be it one
/// that is yet to be born.
pub open spec fn head_arguments() -> Seq<Seq<char>> {
    seq!["symbolic-ref"@, "--short"@, "HEAD"@]
}

/// The arguments with which `git` names the branch that a repository is on.
pub fn head_command() -> (arguments: Vec<String>)
    ensures
        texts(arguments@) == head_arguments(),
{
    let mut arguments: Vec<String> = Vec::new();
    arguments.push("symbolic-ref".to_owned());
    arguments.push("--short".to_owned());
    arguments.push("HEAD".to_owned());
    assert(texts(arguments@) =~= head_arguments());
    arguments
}

/// The arguments with which `git` names one commit of a repository, from whatever
/// branch or tag, and nothing where the repository has no commit.
pub open spec fn commits_arguments() -> Seq<Seq<char>> {
    seq!["rev-list"@, "-n"@, "1"@, "--all"@]
}

/// The arguments with which `git` names one commit of a repository.
pub fn commits_command() -> (arguments: Vec<String>)
    ensures
        texts(arguments@) == commits_arguments(),
{
    let mut arguments: Vec<String> = Vec::new();
    arguments.push("rev-list".to_owned());
    arguments.push("-n".to_owned());
    arguments.push("1".to_owned());
    arguments.push("--all".to_owned());
    assert(texts(arguments@) =~= commits_arguments());
    arguments
}

/// What `git` said of the default branch of a repository: the run with
/// [`head_command`], and the one with [`commits_command`].
pub struct HeadLook {
    pub head: GitRun,
    pub commits: GitRun,
}

/// What a [`HeadLook`] says.
pub struct LookView {
    pub head: GitView,
    pub commits: GitView,
}

impl View for HeadLook {
    type V = LookView;

    open spec fn view(&self) -> LookView {
        LookView { head: self.head@, commits: self.commits@ }
    }
}

/// A run that went well and wrote nothing.
pub open spec fn wrote_nothing(run: GitView) -> bool {
    run matches GitView::Ran { success, stdout, .. } && success && stdout.len() == 0
}

/// The default branch that `git` named: the branch that the repository is on, or the
/// empty name where the repository has no commit at all.
pub open spec fn named_branch(look: LookView) -> Result<Seq<char>, AnswerView> {
    match (look.head, look.commits) {
        (GitView::NotStarted(message), _) => Err(failure_view(500, message)),
        (_, GitView::NotStarted(message)) => Err(failure_view(500, message)),
        (GitView::Ran { stdout, .. }, commits) => if wrote_nothing(commits) {
            Ok(Seq::empty())
        } else {
            Ok(trimmed(lossy_text(stdout)))
        },
    }
}

/// The default branch that `git` named.
pub fn resolve_default_branch(look: HeadLook) -> (result: Result<String, Answer>)
    ensures
        match result {
            Ok(branch) => named_branch(look@) == Ok::<Seq<char>, AnswerView>(branch@),
            Err(answer) => named_branch(look@) == Err::<Seq<char>, AnswerView>(answer@),
        },
{
    match (look.head, look.commits) {
        (GitRun::NotStarted(message), _) => Err(Answer::Failure { status: 500, message }),
        (_, GitRun::NotStarted(message)) => Err(Answer::Failure { status: 500, message }),
        (GitRun::Ran { stdout, .. }, GitRun::Ran { success, stdout: found, .. }) => if success && found.len() == 0 {
            let none = String::new();
            assert(none@ =~= Seq::<char>::empty());
            Ok(none)
        } else {
            Ok(trim(&text_from_utf8_lossy(&stdout)))
        },
    }
}

/// The answer where there is no default branch.
pub open spec fn branch_refusal(branch: Seq<char>) -> Option<AnswerView> {
    if branch.len() == 0 {
        Some(response_view(404, "repository has no commits yet"@))
    } else {
        None
    }
}

/// Lets the name of a default branch through.
pub fn require_branch(branch: String) -> (result: Result<String, Answer>)
    ensures
        match result {
            Ok(name) => branch_refusal(branch@) == None::<AnswerView> && name@ == branch@,
            Err(answer) => branch_refusal(branch@) == Some(answer@),
        },
{
    if branch.as_str().is_empty() {
        Err(response(404, "repository has no commits yet"))
    } else {
        Ok(branch)
    }
}

/// The default branch, or the answer where there is none.
pub open spec fn default_branch(look: LookView) -> Result<Seq<char>, AnswerView> {
    match named_branch(look) {
        Ok(branch) => match branch_refusal(branch) {
            Some(answer) => Err(answer),
            None => Ok(branch),
        },
        Err(answer) => Err(answer),
    }
}

/// The default branch, or the answer where there is none.
fn find_branch(look: HeadLook) -> (result: Result<String, Answer>)
    ensures
        match result {
            Ok(branch) => default_branch(look@) == Ok::<Seq<char>, AnswerView>(branch@),
            Err(answer) => default_branch(look@) == Err::<Seq<char>, AnswerView>(answer@),
        },
{
    match resolve_default_branch(look) {
        Ok(branch) => require_branch(branch),
        Err(answer) => Err(answer),
    }
}

/// The arguments with which `git` writes out a file of a branch.
pub open spec fn show_arguments(branch: Seq<char>, path: Seq<char>) -> Seq<Seq<char>> {
    seq!["show"@, branch + ":"@ + path]
}

/// The arguments with which `git` writes out a file of a branch.
fn show_command(branch: &str, path: &str) -> (arguments: Vec<String>)
    ensures
        texts(arguments@) == show_arguments(branch@, path@),
{
    let mut arguments: Vec<String> = Vec::new();
    arguments.push("show".to_owned());
    arguments.push(branch.to_owned().concat(":").concat(path));
    assert(texts(arguments@) =~= show_arguments(branch@, path@));
    arguments
}

/// The arguments with which `git` lists all files of a branch.
pub open spec fn tree_arguments(branch: Seq<char>) -> Seq<Seq<char>> {
    seq!["ls-tree"@, "-r"@, "--name-only"@, branch]
}

/// The fields that a README is sent as.
pub open spec fn readme_fields(branch: Seq<char>, content: Seq<char>) -> Seq<(Seq<char>, Seq<char>)> {
    seq![("branch"@, branch), ("content"@, content)]
}

/// The branch and the content that a page reads from a README that was sent.
pub open spec fn readme_read_back(branch: Seq<char>, content: Seq<char>) -> Option<(Seq<char>, Seq<char>)> {
    branch_and_content(json_outline(decode_utf8(json_object(readme_fields(branch, content)))))
}

/// The answer with a README, from which a page reads the same branch and content.
pub fn readme_response(branch: String, content: String) -> (answer: Answer)
    ensures
        answer@ == object_view(200, readme_fields(branch@, content@)),
        valid_utf8(json_object(readme_fields(branch@, content@))),
        readme_read_back(branch@, content@) == Some((branch@, content@)),
{
    let ghost shown = readme_fields(branch@, content@);
    let mut fields: Vec<(String, String)> = Vec::new();
    fields.push(("branch".to_owned(), branch));
    fields.push(("content".to_owned(), content));
    assert(pairs(fields@) =~= shown);
    proof {
        reveal_strlit("branch");
        reveal_strlit("content");
        assert("branch"@.len() != "content"@.len());
        let optional = shown.map_values(|f: (Seq<char>, Seq<char>)| (f.0, Some(f.1)));
        assert(optional.skip(1)[0] == ("content"@, Some(shown[1].1)));
        assert(text_under(optional.skip(1), "content"@) == Some(shown[1].1));
        assert(text_under(optional, "branch"@) == Some(shown[0].1));
        assert(text_under(optional, "content"@) == Some(shown[1].1));
    }
    object_response(200, &fields)
}

/// The answer once `git` wrote out the README of a branch, or could not.
pub open spec fn readme_answer(branch: Seq<char>, run: GitView) -> AnswerView {
    match run {
        GitView::NotStarted(message) => failure_view(500, message),
        GitView::Ran { success, stdout, .. } => if success {
            object_view(200, readme_fields(branch, lossy_text(stdout)))
        } else {
            response_view(404, "README.md not found in default branch"@)
        },
    }
}

/// The text that bytes encode; empty where they encode none.
pub open spec fn text_or_empty(bytes: Seq<u8>) -> Seq<char> {
    if valid_utf8(bytes) {
        decode_utf8(bytes)
    } else {
        Seq::empty()
    }
}

/// The answer once `git` listed the files of a branch, or could not.
pub open spec fn tree_answer(run: GitView) -> AnswerView {
    match run {
        GitView::NotStarted(message) => failure_view(500, message),
        GitView::Ran { success, stdout, .. } => if success {
            names_view(lines_of(text_or_empty(stdout)))
        } else {
            failure_view(500, "git ls-tree failed"@)
        },
    }
}

/// The answer to a request for the README of a repository.
pub open spec fn readme_outcome(asked: Asked, head: LookView, run: GitView) -> AnswerView {
    match entry_refusal(asked, Need::View) {
        Some(answer) => answer,
        None => match default_branch(head) {
            Ok(branch) => readme_answer(branch, run),
            Err(answer) => answer,
        },
    }
}

/// The answer to a request for the list of the files of a repository.
pub open spec fn tree_outcome(asked: Asked, head: LookView, run: GitView) -> AnswerView {
    match entry_refusal(asked, Need::View) {
        Some(answer) => answer,
        None => match default_branch(head) {
            Ok(_) => tree_answer(run),
            Err(answer) => answer,
        },
    }
}

/// A request with what `git` said of the default branch.
pub struct Place {
    pub asked: Asked,
    pub head: LookView,
    pub branch: Seq<char>,
}

/// A branch that a visitor may view.
pub struct ReadBranch {
    dir: String,
    branch: String,
    asked: Ghost<Asked>,
    head: Ghost<LookView>,
}

impl View for ReadBranch {
    type V = Place;

    closed spec fn view(&self) -> Place {
        Place { asked: self.asked@, head: self.head@, branch: self.branch@ }
    }
}

impl Reader {
    #[verifier::type_invariant]
    spec fn passed(self) -> bool {
        entry_refusal(self.asked@, Need::View) is None && self.dir@ == repo_dir(self.asked@.name)
    }

    /// The directory of the repository.
    pub fn dir(&self) -> (dir: &str)
        ensures
            dir@ == repo_dir(self@.name),
    {
        proof {
            use_type_invariant(self);
        }
        &self.dir
    }

    /// Goes on with the branch that `git` named.
    pub fn on_branch(self, head: HeadLook) -> (result: Result<ReadBranch, Answer>)
        ensures
            match result {
                Ok(place) => default_branch(head@) == Ok::<Seq<char>, AnswerView>(place@.branch) && place@.asked == self@
                    && place@.head == head@,
                Err(answer) => default_branch(head@) == Err::<Seq<char>, AnswerView>(answer@) && forall|run: GitView|
                    #[trigger] readme_outcome(self@, head@, run) == answer@ && #[trigger] tree_outcome(
                        self@,
                        head@,
                        run,
                    ) == answer@,
            },
    {
        proof {
            use_type_invariant(&self);
        }
        let ghost said = head@;
        match find_branch(head) {
            Ok(branch) => Ok(ReadBranch { dir: self.dir, branch, asked: self.asked, head: Ghost(said) }),
            Err(answer) => Err(answer),
        }
    }
}

impl ReadBranch {
    #[verifier::type_invariant]
    spec fn passed(self) -> bool {
        entry_refusal(self.asked@, Need::View) is None && self.dir@ == repo_dir(self.asked@.name) && default_branch(
            self.head@,
        ) == Ok::<Seq<char>, AnswerView>(self.branch@)
    }

    /// The directory of the repository.
    pub fn dir(&self) -> (dir: &str)
        ensures
            dir@ == repo_dir(self@.asked.name),
    {
        proof {
            use_type_invariant(self);
        }
        &self.dir
    }

    /// The arguments with which `git` writes out the README.
    pub fn readme_command(&self) -> (arguments: Vec<String>)
        ensures
            texts(arguments@) == show_arguments(self@.branch, "README.md"@),
    {
        show_command(&self.branch, "README.md")
    }

    /// The answer once `git` wrote out the README, or could not.
    pub fn get_readme(self, run: GitRun) -> (answer: Answer)
        ensures
            answer@ == readme_outcome(self@.asked, self@.head, run@),
            answer@ == readme_answer(self@.branch, run@),
            run@ matches GitView::Ran { success: true, stdout, .. } ==> readme_read_back(self@.branch, lossy_text(stdout))
                == Some((self@.branch, lossy_text(stdout))),
    {
        proof {
            use_type_invariant(&self);
        }
        match run {
            GitRun::NotStarted(message) => Answer::Failure { status: 500, message },
            GitRun::Ran { success, stdout, .. } => if success {
                readme_response(self.branch, text_from_utf8_lossy(&stdout))
            } else {
                response(404, "README.md not found in default branch")
            },
        }
    }

    /// The arguments with which `git` lists all files.
    pub fn tree_command(&self) -> (arguments: Vec<String>)
        ensures
            texts(arguments@) == tree_arguments(self@.branch),
    {
        let mut arguments: Vec<String> = Vec::new();
        arguments.push("ls-tree".to_owned());
        arguments.push("-r".to_owned());
        arguments.push("--name-only".to_owned());
        arguments.push(self.branch.clone());
        assert(texts(arguments@) =~= tree_arguments(self.branch@));
        arguments
    }

    /// The answer once `git` listed the files, or could not.
    pub fn get_tree(self, run: GitRun) -> (answer: Answer)
        ensures
            answer@ == tree_outcome(self@.asked, self@.head, run@),
            answer@ == tree_answer(run@),
            run@ matches GitView::Ran { success: true, stdout, .. } ==> reads_names(lines_of(text_or_empty(stdout))),
    {
        proof {
            use_type_invariant(&self);
        }
        match run {
            GitRun::NotStarted(message) => Answer::Failure { status: 500, message },
            GitRun::Ran { success, stdout, .. } => if success {
                let text = match text_from_utf8(stdout) {
                    Some(text) => text,
                    None => String::new(),
                };
                names_response(&lines(&text))
            } else {
                failure(500, "git ls-tree failed")
            },
        }
    }
}

/// The header that makes a browser save a body under a name.
pub open spec fn attachment(answer: AnswerView, name: Seq<char>) -> AnswerView {
    header_view(answer, "Content-Disposition"@, "attachment; filename=\""@ + name + "\""@)
}

/// The answer with the header that makes a browser save its body under a name.
fn as_attachment(answer: Answer, name: &str) -> (result: Answer)
    ensures
        result@ == attachment(answer@, name@),
{
    let value = "attachment; filename=\"".to_owned().concat(name).concat("\"");
    with_header(answer, "Content-Disposition", &value)
}

/// The answer once `git` wrote out a file, or could not.
pub open spec fn raw_answer(path: Seq<char>, run: GitView) -> AnswerView {
    match run {
        GitView::NotStarted(message) => failure_view(500, message),
        GitView::Ran { success, stdout, .. } => if success {
            attachment(
                body_view(200, Some("application/octet-stream"@), BodyView::Bytes(stdout)),
                after_last(path, '/'),
            )
        } else {
            response_view(404, "file not found"@)
        },
    }
}

/// The answer to a request for a file of a repository.
pub open spec fn raw_outcome(asked: Asked, url_path: Seq<char>, head: LookView, run: GitView) -> AnswerView {
    match entry_refusal(asked, Need::Download) {
        Some(answer) => answer,
        None => match raw_path(asked.name, url_path) {
            Ok(path) => match default_branch(head) {
                Ok(_) => raw_answer(path, run),
                Err(answer) => answer,
            },
            Err(answer) => answer,
        },
    }
}

/// A request for a file.
pub struct FileAsked {
    pub asked: Asked,
    pub url_path: Seq<char>,
    pub path: Seq<char>,
}

/// A file that a visitor may download.
pub struct RawFile {
    dir: String,
    path: String,
    asked: Ghost<Asked>,
    url_path: Ghost<Seq<char>>,
}

impl View for RawFile {
    type V = FileAsked;

    closed spec fn view(&self) -> FileAsked {
        FileAsked { asked: self.asked@, url_path: self.url_path@, path: self.path@ }
    }
}

/// A branch that a visitor may download from.
pub struct ZipBranch {
    name: String,
    dir: String,
    branch: String,
    asked: Ghost<Asked>,
    head: Ghost<LookView>,
}

impl View for ZipBranch {
    type V = Place;

    closed spec fn view(&self) -> Place {
        Place { asked: self.asked@, head: self.head@, branch: self.branch@ }
    }
}

impl Downloader {
    #[verifier::type_invariant]
    spec fn passed(self) -> bool {
        entry_refusal(self.asked@, Need::Download) is None && self.name@ == self.asked@.name && self.dir@ == repo_dir(
            self.name@,
        )
    }

    /// The directory of the repository.
    pub fn dir(&self) -> (dir: &str)
        ensures
            dir@ == repo_dir(self@.name),
    {
        proof {
            use_type_invariant(self);
        }
        &self.dir
    }

    /// Goes on with the file that the path of a URL names.
    pub fn raw_file(self, url_path: &str) -> (result: Result<RawFile, Answer>)
        ensures
            match result {
                Ok(file) => raw_path(self@.name, url_path@) == Ok::<Seq<char>, AnswerView>(file@.path) && file@.asked
                    == self@ && file@.url_path == url_path@,
                Err(answer) => raw_path(self@.name, url_path@) == Err::<Seq<char>, AnswerView>(answer@) && forall|
                    head: LookView,
                    run: GitView,
                | #[trigger] raw_outcome(self@, url_path@, head, run) == answer@,
            },
    {
        proof {
            use_type_invariant(&self);
        }
        match raw_file_path(&self.name, url_path) {
            Ok(path) => Ok(RawFile { dir: self.dir, path, asked: self.asked, url_path: Ghost(url_path@) }),
            Err(answer) => Err(answer),
        }
    }

    /// Goes on with the branch that `git` named.
    pub fn on_branch(self, head: HeadLook) -> (result: Result<ZipBranch, Answer>)
        ensures
            match result {
                Ok(place) => default_branch(head@) == Ok::<Seq<char>, AnswerView>(place@.branch) && place@.asked == self@
                    && place@.head == head@,
                Err(answer) => default_branch(head@) == Err::<Seq<char>, AnswerView>(answer@) && forall|
                    query: Option<Seq<char>>,
                    run: GitView,
                | #[trigger] zip_outcome(self@, query, head@, run) == answer@,
            },
    {
        proof {
            use_type_invariant(&self);
        }
        let ghost said = head@;
        match find_branch(head) {
            Ok(branch) => Ok(
                ZipBranch { name: self.name, dir: self.dir, branch, asked: self.asked, head: Ghost(said) },
            ),
            Err(answer) => Err(answer),
        }
    }
}

/// A request for a file, with what `git` said of the default branch.
pub struct FilePlace {
    pub asked: Asked,
    pub url_path: Seq<char>,
    pub path: Seq<char>,
    pub head: LookView,
    pub branch: Seq<char>,
}

/// A file of a branch that a visitor may download.
pub struct RawBranch {
    dir: String,
    branch: String,
    path: String,
    asked: Ghost<Asked>,
    url_path: Ghost<Seq<char>>,
    head: Ghost<LookView>,
}

impl View for RawBranch {
    type V = FilePlace;

    closed spec fn view(&self) -> FilePlace {
        FilePlace {
            asked: self.asked@,
            url_path: self.url_path@,
            path: self.path@,
            head: self.head@,
            branch: self.branch@,
        }
    }
}

impl RawFile {
    #[verifier::type_invariant]
    spec fn passed(self) -> bool {
        entry_refusal(self.asked@, Need::Download) is None && self.dir@ == repo_dir(self.asked@.name) && raw_path(
            self.asked@.name,
            self.url_path@,
        ) == Ok::<Seq<char>, AnswerView>(self.path@)
    }

    /// The directory of the repository.
    pub fn dir(&self) -> (dir: &str)
        ensures
            dir@ == repo_dir(self@.asked.name),
    {
        proof {
            use_type_invariant(self);
        }
        &self.dir
    }

    /// Goes on with the branch that `git` named.
    pub fn on_branch(self, head: HeadLook) -> (result: Result<RawBranch, Answer>)
        ensures
            match result {
                Ok(place) => default_branch(head@) == Ok::<Seq<char>, AnswerView>(place@.branch) && place@.asked
                    == self@.asked && place@.url_path == self@.url_path && place@.path == self@.path && place@.head
                    == head@,
                Err(answer) => default_branch(head@) == Err::<Seq<char>, AnswerView>(answer@) && forall|run: GitView|
                    #[trigger] raw_outcome(self@.asked, self@.url_path, head@, run) == answer@,
            },
    {
        proof {
            use_type_invariant(&self);
        }
        let ghost said = head@;
        match find_branch(head) {
            Ok(branch) => Ok(
                RawBranch {
                    dir: self.dir,
                    branch,
                    path: self.path,
                    asked: self.asked,
                    url_path: self.url_path,
                    head: Ghost(said),
                },
            ),
            Err(answer) => Err(answer),
        }
    }
}

impl RawBranch {
    #[verifier::type_invariant]
    spec fn passed(self) -> bool {
        &&& entry_refusal(self.asked@, Need::Download) is None
        &&& self.dir@ == repo_dir(self.asked@.name)
        &&& raw_path(self.asked@.name, self.url_path@) == Ok::<Seq<char>, AnswerView>(self.path@)
        &&& default_branch(self.head@) == Ok::<Seq<char>, AnswerView>(self.branch@)
    }

    /// The directory of the repository.
    pub fn dir(&self) -> (dir: &str)
        ensures
            dir@ == repo_dir(self@.asked.name),
    {
        proof {
            use_type_invariant(self);
        }
        &self.dir
    }

    /// The arguments with which `git` writes out the file.
    pub fn command(&self) -> (arguments: Vec<String>)
        ensures
            texts(arguments@) == show_arguments(self@.branch, self@.path),
            !leads_out(self@.path),
    {
        proof {
            use_type_invariant(self);
        }
        show_command(&self.branch, &self.path)
    }

    /// The answer once `git` wrote out the file, or could not.
    pub fn get_raw_file(self, run: GitRun) -> (answer: Answer)
        ensures
            answer@ == raw_outcome(self@.asked, self@.url_path, self@.head, run@),
            answer@ == raw_answer(self@.path, run@),
    {
        proof {
            use_type_invariant(&self);
        }
        match run {
            GitRun::NotStarted(message) => Answer::Failure { status: 500, message },
            GitRun::Ran { success, stdout, .. } => if success {
                as_attachment(
                    body_response(200, "application/octet-stream", Body::Bytes(stdout)),
                    &tail_after(&self.path, '/'),
                )
            } else {
                response(404, "file not found")
            },
        }
    }
}

/// A request for an archive, with what `git` said of the default branch.
pub struct ArchivePlace {
    pub asked: Asked,
    pub query: Option<Seq<char>>,
    pub head: LookView,
    pub branch: Seq<char>,
    pub paths: Seq<Seq<char>>,
}

/// An archive that a visitor may download.
pub struct Archive {
    name: String,
    dir: String,
    branch: String,
    paths: Vec<String>,
    asked: Ghost<Asked>,
    query: Ghost<Option<Seq<char>>>,
    head: Ghost<LookView>,
}

impl View for Archive {
    type V = ArchivePlace;

    closed spec fn view(&self) -> ArchivePlace {
        ArchivePlace {
            asked: self.asked@,
            query: self.query@,
            head: self.head@,
            branch: self.branch@,
            paths: texts(self.paths@),
        }
    }
}

impl ZipBranch {
    #[verifier::type_invariant]
    spec fn passed(self) -> bool {
        &&& entry_refusal(self.asked@, Need::Download) is None
        &&& self.name@ == self.asked@.name
        &&& self.dir@ == repo_dir(self.name@)
        &&& default_branch(self.head@) == Ok::<Seq<char>, AnswerView>(self.branch@)
    }

    /// Goes on with the paths that a query asks for.
    pub fn select(self, query: Option<&str>) -> (result: Result<Archive, Answer>)
        ensures
            match result {
                Ok(archive) => paths_refusal(asked_paths(view_of(query))) == None::<AnswerView> && archive@ == (
                ArchivePlace {
                    asked: self@.asked,
                    query: view_of(query),
                    head: self@.head,
                    branch: self@.branch,
                    paths: asked_paths(view_of(query)),
                }),
                Err(answer) => paths_refusal(asked_paths(view_of(query))) == Some(answer@) && forall|run: GitView|
                    #[trigger] zip_outcome(self@.asked, view_of(query), self@.head, run) == answer@,
            },
    {
        proof {
            use_type_invariant(&self);
        }
        let paths = archive_paths(query);
        match check_paths(&paths) {
            Ok(()) => Ok(
                Archive {
                    name: self.name,
                    dir: self.dir,
                    branch: self.branch,
                    paths,
                    asked: self.asked,
                    query: Ghost(view_of(query)),
                    head: self.head,
                },
            ),
            Err(answer) => Err(answer),
        }
    }
}

/// The arguments with which `git` makes an archive of a branch: of all its files, or
/// of those under some paths, which stand after `--` so that none is taken for an
/// option.
pub open spec fn archive_arguments(branch: Seq<char>, paths: Seq<Seq<char>>) -> Seq<Seq<char>> {
    let whole = seq!["archive"@, "--format=zip"@, branch];
    if paths.len() == 0 {
        whole
    } else {
        whole + seq!["--"@] + paths
    }
}

/// The answer once `git` made an archive, or could not.
pub open spec fn zip_answer(name: Seq<char>, run: GitView) -> AnswerView {
    match run {
        GitView::NotStarted(message) => failure_view(500, message),
        GitView::Ran { success, stdout, stderr } => if success {
            attachment(body_view(200, Some("application/zip"@), BodyView::Bytes(stdout)), name + ".zip"@)
        } else {
            failure_view(400, "git archive failed: "@ + lossy_text(stderr))
        },
    }
}

/// The answer where `git` could not make an archive, with what it said.
pub fn archive_failed(message: &str) -> (answer: Answer)
    ensures
        answer@ == failure_view(400, "git archive failed: "@ + message@),
{
    failure(400, &"git archive failed: ".to_owned().concat(message))
}

/// The answer to a request for an archive of a repository.
pub open spec fn zip_outcome(asked: Asked, query: Option<Seq<char>>, head: LookView, run: GitView) -> AnswerView {
    match entry_refusal(asked, Need::Download) {
        Some(answer) => answer,
        None => match default_branch(head) {
            Ok(_) => match paths_refusal(asked_paths(query)) {
                Some(answer) => answer,
                None => zip_answer(asked.name, run),
            },
            Err(answer) => answer,
        },
    }
}

impl Archive {
    #[verifier::type_invariant]
    spec fn passed(self) -> bool {
        &&& entry_refusal(self.asked@, Need::Download) is None
        &&& self.name@ == self.asked@.name
        &&& self.dir@ == repo_dir(self.name@)
        &&& default_branch(self.head@) == Ok::<Seq<char>, AnswerView>(self.branch@)
        &&& texts(self.paths@) == asked_paths(self.query@)
        &&& paths_refusal(asked_paths(self.query@)) is None
    }

    /// The directory of the repository.
    pub fn dir(&self) -> (dir: &str)
        ensures
            dir@ == repo_dir(self@.asked.name),
    {
        proof {
            use_type_invariant(self);
        }
        &self.dir
    }

    /// The arguments with which `git` makes the archive.
    pub fn command(&self) -> (arguments: Vec<String>)
        ensures
            texts(arguments@) == archive_arguments(self@.branch, self@.paths),
            paths_refusal(self@.paths) is None,
    {
        proof {
            use_type_invariant(self);
        }
        let mut arguments: Vec<String> = Vec::new();
        arguments.push("archive".to_owned());
        arguments.push("--format=zip".to_owned());
        arguments.push(self.branch.clone());
        let ghost whole = seq!["archive"@, "--format=zip"@, self.branch@];
        assert(texts(arguments@) =~= whole);
        if self.paths.len() == 0 {
            return arguments;
        }
        arguments.push("--".to_owned());
        let ghost all = texts(self.paths@);
        let mut i: usize = 0;
        assert(texts(arguments@) =~= whole + seq!["--"@] + all.take(0));
        while i < self.paths.len()
            invariant
                i <= self.paths@.len(),
                all == texts(self.paths@),
                texts(arguments@) == whole + seq!["--"@] + all.take(i as int),
            decreases self.paths@.len() - i,
        {
            let ghost before = arguments@;
            arguments.push(self.paths[i].clone());
            assert(texts(arguments@) =~= texts(before).push(all[i as int]));
            assert(all.take(i + 1) =~= all.take(i as int).push(all[i as int]));
            i += 1;
            assert(texts(arguments@) =~= whole + seq!["--"@] + all.take(i as int));
        }
        assert(all.take(i as int) =~= all);
        arguments
    }

    /// The answer once `git` made the archive, or could not.
    pub fn get_zip(self, run: GitRun) -> (answer: Answer)
        ensures
            answer@ == zip_outcome(self@.asked, self@.query, self@.head, run@),
            answer@ == zip_answer(self@.asked.name, run@),
    {
        proof {
            use_type_invariant(&self);
        }
        match run {
            GitRun::NotStarted(message) => Answer::Failure { status: 500, message },
            GitRun::Ran { success, stdout, stderr } => if success {
                as_attachment(
                    body_response(200, "application/zip", Body::Bytes(stdout)),
                    &self.name.concat(".zip"),
                )
            } else {
                archive_failed(&text_from_utf8_lossy(&stderr))
            },
        }
    }
}

/// Nothing of a repository is sent to a visitor who may not have it: a README or a
/// list of files only to one who may view, a file or an archive only to one who may
/// download.
pub proof fn law_content_needs_permission(
    asked: Asked,
    url_path: Seq<char>,
    query: Option<Seq<char>>,
    head: LookView,
    run: GitView,
)
    ensures
        status_of(readme_outcome(asked, head, run)) == 200 ==> may(
            asked.visitor,
            asked.settings,
            asked.config,
            asked.groups,
            Need::View,
        ),
        status_of(tree_outcome(asked, head, run)) == 200 ==> may(
            asked.visitor,
            asked.settings,
            asked.config,
            asked.groups,
            Need::View,
        ),
        status_of(raw_outcome(asked, url_path, head, run)) == 200 ==> may(
            asked.visitor,
            asked.settings,
            asked.config,
            asked.groups,
            Need::Download,
        ),
        status_of(zip_outcome(asked, query, head, run)) == 200 ==> may(
            asked.visitor,
            asked.settings,
            asked.config,
            asked.groups,
            Need::Download,
        ),
{
}

/// Of a repository without commits there is nothing to send: whoever may have what is
/// asked is told so, for a single file once its path is a good one.
pub proof fn law_no_commits_is_said(asked: Asked, url_path: Seq<char>, query: Option<Seq<char>>, head: LookView, run: GitView)
    requires
        head.head is Ran,
        wrote_nothing(head.commits),
    ensures
        default_branch(head) == Err::<Seq<char>, AnswerView>(response_view(404, "repository has no commits yet"@)),
        entry_refusal(asked, Need::View) is None ==> readme_outcome(asked, head, run) == response_view(
            404,
            "repository has no commits yet"@,
        ),
        entry_refusal(asked, Need::View) is None ==> tree_outcome(asked, head, run) == response_view(
            404,
            "repository has no commits yet"@,
        ),
        entry_refusal(asked, Need::Download) is None && raw_path(asked.name, url_path) is Ok ==> raw_outcome(
            asked,
            url_path,
            head,
            run,
        ) == response_view(404, "repository has no commits yet"@),
        entry_refusal(asked, Need::Download) is None ==> zip_outcome(asked, query, head, run) == response_view(
            404,
            "repository has no commits yet"@,
        ),
{
}

/// A repository with a commit, on whatever branch, is never taken for one without: its
/// default branch is the one that it is on, be it one without a commit of its own.
pub proof fn law_branch_is_the_one_in_head(head: LookView)
    requires
        head.head is Ran,
        head.commits is Ran,
        !wrote_nothing(head.commits),
    ensures
        named_branch(head) == Ok::<Seq<char>, AnswerView>(trimmed(lossy_text(head.head->stdout))),
{
}

/// A visitor who may not have what is asked of a repository that exists gets the same
/// answer whatever the repository holds.
pub proof fn law_refusal_tells_nothing(
    asked: Asked,
    url_path: Seq<char>,
    query: Option<Seq<char>>,
    head: LookView,
    run: GitView,
    need: Need,
)
    requires
        repo_name_refusal(asked.name) is None,
        asked.exists,
        !may(asked.visitor, asked.settings, asked.config, asked.groups, need),
    ensures
        need == Need::View ==> readme_outcome(asked, head, run) == failure_view(403, "access denied"@),
        need == Need::View ==> tree_outcome(asked, head, run) == failure_view(403, "access denied"@),
        need == Need::Download ==> raw_outcome(asked, url_path, head, run) == failure_view(403, "access denied"@),
        need == Need::Download ==> zip_outcome(asked, query, head, run) == failure_view(403, "access denied"@),
{
}

/// Of the paths in the arguments for an archive none leads out of the tree, and none
/// stands where `git` reads options.
pub proof fn law_archive_arguments_are_safe(branch: Seq<char>, paths: Seq<Seq<char>>, i: int)
    requires
        paths_refusal(paths) is None,
        0 <= i < paths.len(),
    ensures
        archive_arguments(branch, paths)[3] == "--"@,
        archive_arguments(branch, paths)[4 + i] == paths[i],
        !leads_out(archive_arguments(branch, paths)[4 + i]),
{
}

/// The request gets as far as the content: the name is accepted, the repository exists,
/// and the visitor may have what the request needs.
pub open spec fn gets_in(asked: Asked, need: Need) -> bool {
    repo_name_refusal(asked.name) is None && asked.exists && may(
        asked.visitor,
        asked.settings,
        asked.config,
        asked.groups,
        need,
    )
}

/// A request gets as far as the content if and only if the name is accepted, the
/// repository exists and the visitor may; the first that fails is what the answer says.
pub proof fn law_who_gets_in(asked: Asked, need: Need)
    ensures
        entry_refusal(asked, need) is None <==> gets_in(asked, need),
        repo_name_refusal(asked.name) is Some ==> entry_refusal(asked, need) == Some(
            (AnswerView::Failure { status: 400, message: "invalid repository name"@ }),
        ),
        repo_name_refusal(asked.name) is None && !asked.exists ==> (entry_refusal(asked, need) matches Some(answer)
            && crate::reply::says(answer, 404, "repository not found"@)),
        repo_name_refusal(asked.name) is None && asked.exists && !gets_in(asked, need) ==> entry_refusal(asked, need)
            == Some((AnswerView::Failure { status: 403, message: "access denied"@ })),
{
}

/// The default branch is what `git` names as `HEAD`, without the line feed behind it, in
/// a repository with a commit; where the name is blank there is none, and where `git`
/// could not be run its message is the answer.
pub proof fn law_default_branch(branch: Seq<char>, success: bool, stderr: Seq<u8>, commits: GitView, message: Seq<char>)
    requires
        branch.len() > 0,
        !crate::text::is_white_space(branch[0]),
        !crate::text::is_white_space(branch.last()),
        commits is Ran,
        !wrote_nothing(commits),
    ensures
        default_branch(
            (LookView {
                head: GitView::Ran { success, stdout: vstd::utf8::encode_utf8(branch + seq!['\n']), stderr },
                commits,
            }),
        ) == Ok::<Seq<char>, AnswerView>(branch),
        default_branch((LookView { head: GitView::NotStarted(message), commits })) == Err::<Seq<char>, AnswerView>(
            (AnswerView::Failure { status: 500, message }),
        ),
        (default_branch(
            (LookView {
                head: GitView::Ran { success, stdout: vstd::utf8::encode_utf8(Seq::<char>::empty()), stderr },
                commits,
            }),
        ) matches Err(answer) && crate::reply::says(answer, 404, "repository has no commits yet"@)),
{
    let line = branch + seq!['\n'];
    let none = Seq::<char>::empty();
    crate::percent::law_plain_text_stays(line);
    crate::percent::law_plain_text_stays(none);
    crate::text::law_trimming_takes_off_white_space(none, branch, seq!['\n']);
    assert(none + branch + seq!['\n'] =~= line);
    crate::text::law_trimming_takes_off_white_space(none, none, none);
    assert(none + none + none =~= none);
}

/// A commit exists where `git` wrote one or did not say.
pub proof fn law_no_commit_is_a_blank_answer(success: bool, stdout: Seq<u8>, stderr: Seq<u8>, message: Seq<char>)
    ensures
        wrote_nothing((GitView::Ran { success, stdout, stderr })) <==> success && stdout.len() == 0,
        !wrote_nothing(GitView::NotStarted(message)),
{
}

/// `git` is asked for exactly the branch, the file, the tree or the archive.
pub proof fn law_what_git_is_asked(branch: Seq<char>, path: Seq<char>, paths: Seq<Seq<char>>, i: int)
    ensures
        head_arguments() == seq!["symbolic-ref"@, "--short"@, "HEAD"@],
        commits_arguments() == seq!["rev-list"@, "-n"@, "1"@, "--all"@],
        show_arguments(branch, path).len() == 2,
        show_arguments(branch, path)[0] == "show"@,
        show_arguments(branch, path)[1] == branch + seq![':'] + path,
        tree_arguments(branch).len() == 4,
        tree_arguments(branch)[0] == "ls-tree"@,
        tree_arguments(branch)[1] == "-r"@,
        tree_arguments(branch)[2] == "--name-only"@,
        tree_arguments(branch)[3] == branch,
        archive_arguments(branch, Seq::empty()).len() == 3,
        paths.len() > 0 ==> archive_arguments(branch, paths).len() == paths.len() + 4,
        archive_arguments(branch, paths)[0] == "archive"@,
        archive_arguments(branch, paths)[1] == "--format=zip"@,
        archive_arguments(branch, paths)[2] == branch,
        paths.len() > 0 ==> archive_arguments(branch, paths)[3] == "--"@,
        0 <= i < paths.len() ==> archive_arguments(branch, paths)[4 + i] == paths[i],
{
    reveal_strlit(":");
    assert(":"@ =~= seq![':']);
}

/// A README that `git` wrote out is sent as it is, with the branch; where `git` found
/// none or could not be run, the answer says so.
pub proof fn law_readme_is_sent_as_it_is(asked: Asked, head: LookView, branch: Seq<char>, content: Seq<char>, run: GitView)
    requires
        gets_in(asked, Need::View),
        default_branch(head) == Ok::<Seq<char>, AnswerView>(branch),
    ensures
        (run matches GitView::Ran { success, stdout, .. } && success && stdout == vstd::utf8::encode_utf8(content)) ==> (
        readme_outcome(asked, head, run) matches AnswerView::Response(r) && r.status == 200 && r.content_type == Some(
            "application/json"@,
        ) && r.headers.len() == 0 && r.body == BodyView::Bytes(
            json_object(seq![("branch"@, branch), ("content"@, content)]),
        )),
        (run matches GitView::Ran { success, .. } && success) ==> (readme_outcome(asked, head, run) matches
            AnswerView::Response(r) && r.status == 200 && r.body == BodyView::Bytes(
            json_object(seq![("branch"@, branch), ("content"@, lossy_text(run->stdout))]),
        )),
        (run matches GitView::Ran { success, .. } && !success) ==> crate::reply::says(
            readme_outcome(asked, head, run),
            404,
            "README.md not found in default branch"@,
        ),
        run matches GitView::NotStarted(message) ==> readme_outcome(asked, head, run) == (AnswerView::Failure {
            status: 500,
            message,
        }),
{
    crate::percent::law_plain_text_stays(content);
}

/// The files that `git` listed are sent, one for each line and in the same order; where
/// it failed or could not be run, the answer says so.
pub proof fn law_files_are_sent_as_listed(asked: Asked, head: LookView, branch: Seq<char>, text: Seq<char>, run: GitView)
    requires
        gets_in(asked, Need::View),
        default_branch(head) == Ok::<Seq<char>, AnswerView>(branch),
    ensures
        (run matches GitView::Ran { success, stdout, .. } && success && stdout == vstd::utf8::encode_utf8(text)) ==> (
        tree_outcome(asked, head, run) matches AnswerView::Response(r) && r.status == 200 && r.content_type == Some(
            "application/json"@,
        ) && r.headers.len() == 0 && r.body == BodyView::Bytes(crate::outside::json_array(lines_of(text)))),
        (run matches GitView::Ran { success, stdout, .. } && success && !valid_utf8(stdout)) ==> (tree_outcome(
            asked,
            head,
            run,
        ) matches AnswerView::Response(r) && r.status == 200 && r.body == BodyView::Bytes(
            crate::outside::json_array(Seq::empty()),
        )),
        (run matches GitView::Ran { success, .. } && !success) ==> tree_outcome(asked, head, run) == (
        AnswerView::Failure { status: 500, message: "git ls-tree failed"@ }),
        run matches GitView::NotStarted(message) ==> tree_outcome(asked, head, run) == (AnswerView::Failure {
            status: 500,
            message,
        }),
{
    vstd::utf8::encode_utf8_valid_utf8(text);
    vstd::utf8::encode_utf8_decode_utf8(text);
}

/// A file that `git` wrote out is sent byte for byte, whatever it holds, to be saved
/// under the last segment of its path; where `git` found none or could not be run, the
/// answer says so.
pub proof fn law_file_is_sent_byte_for_byte(
    asked: Asked,
    url_path: Seq<char>,
    head: LookView,
    branch: Seq<char>,
    folder: Seq<char>,
    name: Seq<char>,
    run: GitView,
)
    requires
        gets_in(asked, Need::Download),
        default_branch(head) == Ok::<Seq<char>, AnswerView>(branch),
        raw_path(asked.name, url_path) == Ok::<Seq<char>, AnswerView>(name) || raw_path(asked.name, url_path) == Ok::<
            Seq<char>,
            AnswerView,
        >(folder + seq!['/'] + name),
        !name.contains('/'),
    ensures
        (run matches GitView::Ran { success, stdout, .. } && success) ==> (raw_outcome(asked, url_path, head, run) matches
            AnswerView::Response(r) && r.status == 200 && r.content_type == Some("application/octet-stream"@) && r.body
            == BodyView::Bytes(run->stdout) && r.headers == seq![
            ("Content-Disposition"@, "attachment; filename=\""@ + name + "\""@),
        ]),
        (run matches GitView::Ran { success, .. } && !success) ==> crate::reply::says(
            raw_outcome(asked, url_path, head, run),
            404,
            "file not found"@,
        ),
        run matches GitView::NotStarted(message) ==> raw_outcome(asked, url_path, head, run) == (AnswerView::Failure {
            status: 500,
            message,
        }),
{
    crate::text::law_tail_after_the_last(folder, '/', name);
}

/// An archive that `git` made is sent byte for byte, to be saved under the name of the
/// repository with `.zip` behind it; where `git` failed, what it said is the answer.
pub proof fn law_archive_is_sent_byte_for_byte(
    asked: Asked,
    query: Option<Seq<char>>,
    head: LookView,
    branch: Seq<char>,
    said: Seq<char>,
    run: GitView,
)
    requires
        gets_in(asked, Need::Download),
        default_branch(head) == Ok::<Seq<char>, AnswerView>(branch),
        paths_refusal(asked_paths(query)) is None,
    ensures
        (run matches GitView::Ran { success, stdout, .. } && success) ==> (zip_outcome(asked, query, head, run) matches
            AnswerView::Response(r) && r.status == 200 && r.content_type == Some("application/zip"@) && r.body
            == BodyView::Bytes(run->stdout) && r.headers == seq![
            ("Content-Disposition"@, "attachment; filename=\""@ + (asked.name + ".zip"@) + "\""@),
        ]),
        (run matches GitView::Ran { success, stderr, .. } && !success && stderr == vstd::utf8::encode_utf8(said))
            ==> zip_outcome(asked, query, head, run) == (AnswerView::Failure {
            status: 400,
            message: "git archive failed: "@ + said,
        }),
        (run matches GitView::Ran { success, .. } && !success) ==> zip_outcome(asked, query, head, run) == (
        AnswerView::Failure { status: 400, message: "git archive failed: "@ + lossy_text(run->stderr) }),
        run matches GitView::NotStarted(message) ==> zip_outcome(asked, query, head, run) == (AnswerView::Failure {
            status: 500,
            message,
        }),
{
    crate::percent::law_plain_text_stays(said);
}

/// Where a request does not get in, has a bad path, or the repository has no branch, that
/// is the answer, in this order; for an archive the branch comes before the paths.
pub proof fn law_what_comes_before_the_content(
    asked: Asked,
    url_path: Seq<char>,
    query: Option<Seq<char>>,
    head: LookView,
    run: GitView,
)
    ensures
        entry_refusal(asked, Need::View) matches Some(answer) ==> readme_outcome(asked, head, run) == answer
            && tree_outcome(asked, head, run) == answer,
        entry_refusal(asked, Need::Download) matches Some(answer) ==> raw_outcome(asked, url_path, head, run) == answer
            && zip_outcome(asked, query, head, run) == answer,
        entry_refusal(asked, Need::View) is None ==> (default_branch(head) matches Err(answer) ==> readme_outcome(
            asked,
            head,
            run,
        ) == answer && tree_outcome(asked, head, run) == answer),
        entry_refusal(asked, Need::Download) is None ==> (raw_path(asked.name, url_path) matches Err(answer)
            ==> raw_outcome(asked, url_path, head, run) == answer),
        entry_refusal(asked, Need::Download) is None && raw_path(asked.name, url_path) is Ok ==> (default_branch(
            head,
        ) matches Err(answer) ==> raw_outcome(asked, url_path, head, run) == answer),
        entry_refusal(asked, Need::Download) is None ==> (default_branch(head) matches Err(answer) ==> zip_outcome(
            asked,
            query,
            head,
            run,
        ) == answer),
        entry_refusal(asked, Need::Download) is None && default_branch(head) is Ok ==> (paths_refusal(
            asked_paths(query),
        ) matches Some(answer) ==> zip_outcome(asked, query, head, run) == answer),
{
}

/// A README that was sent holds its branch and its content, under these names.
pub proof fn law_fields_of_a_readme(branch: Seq<char>, content: Seq<char>)
    ensures
        readme_fields(branch, content).len() == 2,
        readme_fields(branch, content)[0] == ("branch"@, branch),
        readme_fields(branch, content)[1] == ("content"@, content),
{
}

/// What the two runs say is what they hold.
pub proof fn law_looks_show_their_fields(look: HeadLook)
    ensures
        look@.head == look.head@,
        look@.commits == look.commits@,
{
}

/// Where the second run could not be made, its message is the answer, and a name that is
/// blank is no branch.
pub proof fn law_looks_that_fail(stdout: Seq<u8>, success: bool, stderr: Seq<u8>, message: Seq<char>, branch: Seq<char>)
    ensures
        default_branch(
            (LookView { head: GitView::Ran { success, stdout, stderr }, commits: GitView::NotStarted(message) }),
        ) == Err::<Seq<char>, AnswerView>((AnswerView::Failure { status: 500, message })),
        branch.len() > 0 ==> branch_refusal(branch) is None,
        branch.len() == 0 ==> (branch_refusal(branch) matches Some(answer) && crate::reply::says(
            answer,
            404,
            "repository has no commits yet"@,
        )),
{
}

} // verus!
