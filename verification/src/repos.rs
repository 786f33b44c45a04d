//! The list of repositories, and new repositories.
//!
//! A new repository takes several steps, each of which is a type of its own and has
//! to succeed before the next one can be taken: [`permit_creation`], then the disk
//! ([`Permitted::room`]), the name ([`Roomy::named`]), a look whether the repository
//! exists ([`NewRepo::absent`]), the directory of the repositories
//! ([`ReadyRepo::rooted`]), and `git init` ([`RootedRepo::initialised`]).

use vstd::prelude::*;
use vstd::utf8::{decode_utf8, valid_utf8};
use crate::access::{AccessConfig, AccessView, GroupStore, Need, Settings, SettingsView, Visitor, VisitorView, is_admin,
    is_allowed_for_git, may, visitor_is_admin};
use crate::accounts::{AccountStore, AccountsView, account_may_create, may_create};
use crate::names::{repo_dir, repo_name_refusal, sanitize_repo_name};
use crate::order::{in_order, is_sorted, sorted};
use crate::outside::{json_array, maybe_text, text_from_utf8, texts};
use crate::reply::{Answer, AnswerView, Body, BodyView, array_response, body_view, failure, failure_view, json_response,
    json_view, reads_names, response, response_view, status_of};

verus! {

/// Something that stands in the directory of the repositories.
pub struct RepoEntry {
    /// The bytes of its name.
    pub name: Vec<u8>,
    pub is_dir: bool,
    /// Its access settings, as a repository.
    pub config: AccessConfig,
}

/// What a [`RepoEntry`] says.
pub struct EntryView {
    pub name: Seq<u8>,
    pub is_dir: bool,
    pub config: AccessView,
}

impl View for RepoEntry {
    type V = EntryView;

    open spec fn view(&self) -> EntryView {
        EntryView { name: self.name@, is_dir: self.is_dir, config: self.config@ }
    }
}

/// The views of a list of entries.
pub open spec fn entry_views(list: Seq<RepoEntry>) -> Seq<EntryView> {
    list.map_values(|e: RepoEntry| e@)
}

/// The name of the repository that an entry is: a directory with a name that is text.
pub open spec fn repo_name(entry: EntryView) -> Option<Seq<char>> {
    if entry.is_dir && valid_utf8(entry.name) {
        Some(decode_utf8(entry.name))
    } else {
        None
    }
}

/// The name of the repository that an entry is.
pub fn entry_name(entry: &RepoEntry) -> (name: Option<String>)
    ensures
        maybe_text(name) == repo_name(entry@),
{
    if entry.is_dir {
        let bytes = entry.name.clone();
        assert(bytes@ =~= entry.name@);
        text_from_utf8(bytes)
    } else {
        None
    }
}

/// The names of the repositories that a visitor may view, in the order in which they
/// were found.
pub open spec fn visible_names(
    entries: Seq<EntryView>,
    visitor: VisitorView,
    settings: SettingsView,
    groups: Map<Seq<char>, Seq<char>>,
) -> Seq<Seq<char>>
    decreases entries.len(),
{
    if entries.len() == 0 {
        Seq::empty()
    } else {
        let before = visible_names(entries.drop_last(), visitor, settings, groups);
        match repo_name(entries.last()) {
            Some(name) => if may(visitor, settings, entries.last().config, groups, Need::View) {
                before.push(name)
            } else {
                before
            },
            None => before,
        }
    }
}

/// The names of the repositories that a visitor may view, in order.
pub open spec fn listed_names(
    entries: Seq<EntryView>,
    visitor: VisitorView,
    settings: SettingsView,
    groups: Map<Seq<char>, Seq<char>>,
) -> Seq<Seq<char>> {
    in_order(visible_names(entries, visitor, settings, groups))
}

/// The names of the repositories that a visitor may view, in order; an error where
/// the directory could not be read.
pub fn list_repos(
    visitor: &Visitor,
    settings: &Settings,
    groups: &GroupStore,
    entries: Result<Vec<RepoEntry>, String>,
) -> (result: Result<Vec<String>, Answer>)
    ensures
        match (result, entries) {
            (Ok(names), Ok(found)) => texts(names@) == listed_names(
                entry_views(found@),
                visitor@,
                settings@,
                groups@,
            ) && is_sorted(texts(names@)) && texts(names@).to_multiset() == visible_names(
                entry_views(found@),
                visitor@,
                settings@,
                groups@,
            ).to_multiset(),
            (Err(answer), Err(message)) => answer@ == failure_view(500, message@),
            _ => false,
        },
{
    let found = match entries {
        Ok(found) => found,
        Err(message) => {
            return Err(Answer::Failure { status: 500, message });
        },
    };
    let ghost all = entry_views(found@);
    let mut names: Vec<String> = Vec::new();
    let mut i: usize = 0;
    assert(all.take(0) =~= Seq::<EntryView>::empty());
    assert(texts(names@) =~= Seq::<Seq<char>>::empty());
    while i < found.len()
        invariant
            i <= found@.len(),
            all == entry_views(found@),
            texts(names@) == visible_names(all.take(i as int), visitor@, settings@, groups@),
        decreases found@.len() - i,
    {
        let ghost seen = all.take(i + 1);
        assert(seen.drop_last() =~= all.take(i as int));
        assert(seen.last() == found@[i as int]@);
        match entry_name(&found[i]) {
            Some(name) => {
                if is_allowed_for_git(visitor, settings, &found[i].config, groups, Need::View) {
                    let ghost before = names@;
                    let ghost text = name@;
                    names.push(name);
                    assert(texts(names@) =~= texts(before).push(text));
                }
            },
            None => {},
        }
        i += 1;
    }
    assert(all.take(i as int) =~= all);
    Ok(sorted(names))
}

/// The answer to a request for the list of repositories.
pub open spec fn repos_view(names: Seq<Seq<char>>) -> AnswerView {
    body_view(200, Some("application/json; charset=utf-8"@), BodyView::Bytes(json_array(names)))
}

/// Sends the names of the repositories that a visitor may view, in order, so that a
/// page reads exactly these names; an error where the directory could not be read.
pub fn send_repos(
    visitor: &Visitor,
    settings: &Settings,
    groups: &GroupStore,
    entries: Result<Vec<RepoEntry>, String>,
) -> (answer: Answer)
    ensures
        match entries {
            Ok(found) => {
                let visible = visible_names(entry_views(found@), visitor@, settings@, groups@);
                let names = listed_names(entry_views(found@), visitor@, settings@, groups@);
                answer@ == repos_view(names) && is_sorted(names) && names.to_multiset() == visible.to_multiset()
                    && reads_names(names)
            },
            Err(message) => answer@ == failure_view(500, message@),
        },
{
    match list_repos(visitor, settings, groups, entries) {
        Ok(names) => array_response("application/json; charset=utf-8", &names),
        Err(answer) => answer,
    }
}

/// How a run of `git` went.
pub enum GitRun {
    /// The program could not be started.
    NotStarted(String),
    /// The program ran to its end.
    Ran { success: bool, stdout: Vec<u8>, stderr: Vec<u8> },
}

/// What a [`GitRun`] says.
pub enum GitView {
    NotStarted(Seq<char>),
    Ran { success: bool, stdout: Seq<u8>, stderr: Seq<u8> },
}

impl View for GitRun {
    type V = GitView;

    open spec fn view(&self) -> GitView {
        match self {
            GitRun::NotStarted(message) => GitView::NotStarted(message@),
            GitRun::Ran { success, stdout, stderr } => GitView::Ran {
                success: *success,
                stdout: stdout@,
                stderr: stderr@,
            },
        }
    }
}

/// Who asks for a new repository.
pub struct Creator {
    pub visitor: VisitorView,
    pub settings: SettingsView,
    pub accounts: AccountsView,
}

/// A request for a new repository, with what was found on the way to it.
pub struct Creation {
    pub by: Creator,
    /// The disk has room.
    pub room: bool,
    /// The report on the disk.
    pub report: Seq<u8>,
    pub name: Seq<char>,
    /// The repository exists already.
    pub exists: bool,
    /// Why the directory of the repositories could not be made, if it could not be.
    pub root_failed: Option<Seq<char>>,
}

/// The answer to a visitor who may not create repositories.
pub open spec fn creation_refusal(by: Creator) -> Option<AnswerView> {
    if is_admin(by.visitor, by.settings) || may_create(by.visitor, by.accounts) {
        None
    } else {
        Some(failure_view(403, "repository creation not permitted for this account"@))
    }
}

/// The answer where the disk is too full, with the report on the disk.
pub open spec fn room_refusal(allowed: bool, report: Seq<u8>) -> Option<AnswerView> {
    if allowed {
        None
    } else {
        Some(json_view(507, BodyView::Bytes(report)))
    }
}

/// The answer where a repository exists already.
pub open spec fn conflict_refusal(exists: bool) -> Option<AnswerView> {
    if exists {
        Some(response_view(409, "repository already exists"@))
    } else {
        None
    }
}

/// The answer where the directory of the repositories could not be made.
pub open spec fn root_refusal(failed: Option<Seq<char>>) -> Option<AnswerView> {
    match failed {
        Some(message) => Some(failure_view(500, message)),
        None => None,
    }
}

/// The answer to a request for a new repository that does not get as far as
/// `git init`: the first thing that stands against it decides.
pub open spec fn creation_stop(creation: Creation) -> Option<AnswerView> {
    if creation_refusal(creation.by) is Some {
        creation_refusal(creation.by)
    } else if room_refusal(creation.room, creation.report) is Some {
        room_refusal(creation.room, creation.report)
    } else if repo_name_refusal(creation.name) is Some {
        repo_name_refusal(creation.name)
    } else if conflict_refusal(creation.exists) is Some {
        conflict_refusal(creation.exists)
    } else {
        root_refusal(creation.root_failed)
    }
}

/// The answer once `git init` was run for a directory.
pub open spec fn init_answer(dir: Seq<char>, run: GitView) -> AnswerView {
    match run {
        GitView::NotStarted(message) => failure_view(500, "failed to spawn git init: "@ + message),
        GitView::Ran { success, .. } => if success {
            response_view(201, dir)
        } else {
            failure_view(500, "git init --bare failed"@)
        },
    }
}

/// The answer to a request for a new repository.
pub open spec fn creation_answer(creation: Creation, run: GitView) -> AnswerView {
    match creation_stop(creation) {
        Some(answer) => answer,
        None => init_answer(repo_dir(creation.name), run),
    }
}

/// A visitor who may create repositories.
pub struct Permitted {
    by: Ghost<Creator>,
}

impl View for Permitted {
    type V = Creator;

    closed spec fn view(&self) -> Creator {
        self.by@
    }
}

/// Lets those through who may create repositories: the administrator, and accounts
/// that were given the right.
pub fn permit_creation(visitor: &Visitor, settings: &Settings, accounts: &AccountStore) -> (result: Result<
    Permitted,
    Answer,
>)
    ensures
        match result {
            Ok(permitted) => creation_refusal(permitted@) is None && permitted@ == (Creator {
                visitor: visitor@,
                settings: settings@,
                accounts: accounts@,
            }),
            Err(answer) => creation_refusal(
                (Creator { visitor: visitor@, settings: settings@, accounts: accounts@ }),
            ) == Some(answer@) && forall|creation: Creation|
                creation.by == (Creator { visitor: visitor@, settings: settings@, accounts: accounts@ })
                    ==> #[trigger] creation_stop(creation) == Some(answer@),
        },
{
    let ghost by = Creator { visitor: visitor@, settings: settings@, accounts: accounts@ };
    if visitor_is_admin(visitor, settings) || account_may_create(visitor, accounts) {
        Ok(Permitted { by: Ghost(by) })
    } else {
        Err(failure(403, "repository creation not permitted for this account"))
    }
}

/// A visitor who may create repositories, and room for one.
pub struct Roomy {
    by: Ghost<Creator>,
    report: Ghost<Seq<u8>>,
}

impl View for Roomy {
    type V = (Creator, Seq<u8>);

    /// Who asks, and the report on the disk.
    closed spec fn view(&self) -> (Creator, Seq<u8>) {
        (self.by@, self.report@)
    }
}

impl Permitted {
    #[verifier::type_invariant]
    spec fn passed(self) -> bool {
        creation_refusal(self.by@) is None
    }

    /// Goes on where the disk has room, whoever the visitor is.
    pub fn room(self, allowed: bool, report: Vec<u8>) -> (result: Result<Roomy, Answer>)
        ensures
            match result {
                Ok(roomy) => allowed && roomy@ == (self@, report@),
                Err(answer) => room_refusal(allowed, report@) == Some(answer@) && forall|creation: Creation|
                    creation.by == self@ && creation.room == allowed && creation.report == report@
                        ==> #[trigger] creation_stop(creation) == Some(answer@),
            },
    {
        proof {
            use_type_invariant(&self);
        }
        if allowed {
            Ok(Roomy { by: self.by, report: Ghost(report@) })
        } else {
            Err(json_response(507, Body::Bytes(report)))
        }
    }
}

/// A repository that is to be created.
pub struct NewRepo {
    dir: String,
    creation: Ghost<Creation>,
}

impl View for NewRepo {
    type V = Creation;

    /// The request, as it is if nothing stands against it from here on.
    closed spec fn view(&self) -> Creation {
        self.creation@
    }
}

impl Roomy {
    #[verifier::type_invariant]
    spec fn passed(self) -> bool {
        creation_refusal(self.by@) is None
    }

    /// Goes on with a name that can be the name of a repository.
    pub fn named(self, name: &str) -> (result: Result<NewRepo, Answer>)
        ensures
            match result {
                Ok(repo) => repo_name_refusal(name@) is None && repo@ == (Creation {
                    by: self@.0,
                    room: true,
                    report: self@.1,
                    name: name@,
                    exists: false,
                    root_failed: None,
                }),
                Err(answer) => repo_name_refusal(name@) == Some(answer@) && forall|creation: Creation|
                    creation.by == self@.0 && creation.room && creation.name == name@
                        ==> #[trigger] creation_stop(creation) == Some(answer@),
            },
    {
        proof {
            use_type_invariant(&self);
        }
        let ghost creation = Creation {
            by: self.by@,
            room: true,
            report: self.report@,
            name: name@,
            exists: false,
            root_failed: None,
        };
        match sanitize_repo_name(name) {
            Ok(dir) => Ok(NewRepo { dir, creation: Ghost(creation) }),
            Err(answer) => Err(answer),
        }
    }
}

/// A repository that is to be created and does not exist.
pub struct ReadyRepo {
    dir: String,
    creation: Ghost<Creation>,
}

impl View for ReadyRepo {
    type V = Creation;

    /// The request, as it is if nothing stands against it from here on.
    closed spec fn view(&self) -> Creation {
        self.creation@
    }
}

impl NewRepo {
    #[verifier::type_invariant]
    spec fn passed(self) -> bool {
        creation_stop(self.creation@) is None && self.dir@ == repo_dir(self.creation@.name)
    }

    /// The directory of the repository to look for.
    pub fn dir(&self) -> (dir: &str)
        ensures
            dir@ == repo_dir(self@.name),
    {
        proof {
            use_type_invariant(self);
        }
        &self.dir
    }

    /// Goes on where there is no such repository.
    pub fn absent(self, exists: bool) -> (result: Result<ReadyRepo, Answer>)
        ensures
            match result {
                Ok(repo) => !exists && repo@ == self@,
                Err(answer) => conflict_refusal(exists) == Some(answer@) && forall|creation: Creation|
                    creation.by == self@.by && creation.room && creation.name == self@.name && creation.exists == exists
                        ==> #[trigger] creation_stop(creation) == Some(answer@),
            },
    {
        proof {
            use_type_invariant(&self);
        }
        if exists {
            Err(response(409, "repository already exists"))
        } else {
            Ok(ReadyRepo { dir: self.dir, creation: self.creation })
        }
    }
}

/// A repository that `git init` is to be run for.
pub struct RootedRepo {
    dir: String,
    creation: Ghost<Creation>,
}

impl View for RootedRepo {
    type V = Creation;

    /// The request.
    closed spec fn view(&self) -> Creation {
        self.creation@
    }
}

impl ReadyRepo {
    #[verifier::type_invariant]
    spec fn passed(self) -> bool {
        creation_stop(self.creation@) is None && self.dir@ == repo_dir(self.creation@.name)
    }

    /// Goes on where the directory of the repositories is there.
    pub fn rooted(self, failed: Option<String>) -> (result: Result<RootedRepo, Answer>)
        ensures
            match result {
                Ok(repo) => failed is None && repo@ == self@,
                Err(answer) => root_refusal(maybe_text(failed)) == Some(answer@) && creation_stop((Creation { root_failed: maybe_text(failed), ..self@ })) == Some(answer@),
            },
    {
        proof {
            use_type_invariant(&self);
        }
        match failed {
            Some(message) => Err(Answer::Failure { status: 500, message }),
            None => Ok(RootedRepo { dir: self.dir, creation: self.creation }),
        }
    }
}

impl RootedRepo {
    #[verifier::type_invariant]
    spec fn passed(self) -> bool {
        creation_stop(self.creation@) is None && self.dir@ == repo_dir(self.creation@.name)
    }

    /// The directory of the repository to make.
    pub fn dir(&self) -> (dir: &str)
        ensures
            dir@ == repo_dir(self@.name),
    {
        proof {
            use_type_invariant(self);
        }
        &self.dir
    }

    /// The answer once `git init` was run.
    pub fn initialised(self, run: GitRun) -> (answer: Answer)
        ensures
            creation_stop(self@) is None,
            answer@ == creation_answer(self@, run@),
            answer@ == init_answer(repo_dir(self@.name), run@),
    {
        proof {
            use_type_invariant(&self);
        }
        match run {
            GitRun::NotStarted(message) => Answer::Failure {
                status: 500,
                message: "failed to spawn git init: ".to_owned().concat(&message),
            },
            GitRun::Ran { success, .. } => if success {
                response(201, &self.dir)
            } else {
                failure(500, "git init --bare failed")
            },
        }
    }
}

/// The answer to a request for the report on the disk.
pub fn get_capacity(report: Vec<u8>) -> (answer: Answer)
    ensures
        answer@ == json_view(200, BodyView::Bytes(report@)),
{
    json_response(200, Body::Bytes(report))
}

/// A repository is created only for the administrator or an account with the right,
/// only where the disk has room, even for the administrator, only under a good name,
/// and never over one that exists.
pub proof fn law_creation_is_guarded(creation: Creation, run: GitView)
    requires
        status_of(creation_answer(creation, run)) == 201,
    ensures
        is_admin(creation.by.visitor, creation.by.settings) || may_create(creation.by.visitor, creation.by.accounts),
        creation.room,
        repo_name_refusal(creation.name) is None,
        !creation.exists,
        creation_answer(creation, run) == response_view(201, repo_dir(creation.name)),
{
}

/// The names of all repositories among the entries, in the order in which they were
/// found.
pub open spec fn repo_names(entries: Seq<EntryView>) -> Seq<Seq<char>>
    decreases entries.len(),
{
    if entries.len() == 0 {
        Seq::empty()
    } else {
        match repo_name(entries.last()) {
            Some(name) => repo_names(entries.drop_last()).push(name),
            None => repo_names(entries.drop_last()),
        }
    }
}

/// The administrator sees every repository.
pub proof fn law_admin_sees_everything(
    entries: Seq<EntryView>,
    visitor: VisitorView,
    settings: SettingsView,
    groups: Map<Seq<char>, Seq<char>>,
)
    requires
        is_admin(visitor, settings),
    ensures
        visible_names(entries, visitor, settings, groups) == repo_names(entries),
    decreases entries.len(),
{
    if entries.len() > 0 {
        law_admin_sees_everything(entries.drop_last(), visitor, settings, groups);
    }
}

/// An entry is a repository of a name that a visitor may view.
pub open spec fn shows(
    entry: EntryView,
    visitor: VisitorView,
    settings: SettingsView,
    groups: Map<Seq<char>, Seq<char>>,
    name: Seq<char>,
) -> bool {
    repo_name(entry) == Some(name) && may(visitor, settings, entry.config, groups, Need::View)
}

/// A name is listed if and only if it is that of a repository that the visitor may
/// view; plain files, and directories with a name that is no text, never are.
pub proof fn law_listed_means_viewable(
    entries: Seq<EntryView>,
    visitor: VisitorView,
    settings: SettingsView,
    groups: Map<Seq<char>, Seq<char>>,
    name: Seq<char>,
)
    ensures
        visible_names(entries, visitor, settings, groups).contains(name) <==> exists|i: int|
            0 <= i < entries.len() && shows(#[trigger] entries[i], visitor, settings, groups, name),
    decreases entries.len(),
{
    if entries.len() > 0 {
        let n = entries.len() - 1;
        let rest = entries.drop_last();
        let before = visible_names(rest, visitor, settings, groups);
        let after = visible_names(entries, visitor, settings, groups);
        law_listed_means_viewable(rest, visitor, settings, groups, name);
        if before.contains(name) {
            let i = choose|i: int| 0 <= i < rest.len() && shows(#[trigger] rest[i], visitor, settings, groups, name);
            assert(entries[i] == rest[i]);
            let k = choose|k: int| 0 <= k < before.len() && before[k] == name;
            assert(after[k] == name);
        }
        if after.contains(name) && !before.contains(name) {
            let k = choose|k: int| 0 <= k < after.len() && after[k] == name;
            assert(k == before.len()) by {
                if k < before.len() {
                    assert(before[k] == name);
                }
            }
            assert(shows(entries[n], visitor, settings, groups, name));
        }
        if exists|i: int| 0 <= i < entries.len() && shows(#[trigger] entries[i], visitor, settings, groups, name) {
            let i = choose|i: int| 0 <= i < entries.len() && shows(#[trigger] entries[i], visitor, settings, groups, name);
            if i < n {
                assert(rest[i] == entries[i]);
                assert(before.contains(name));
            } else {
                assert(after[before.len() as int] == name);
            }
        }
    }
}

/// An entry is a repository under a name if and only if it is a directory and its name
/// is the UTF-8 encoding of that text.
pub proof fn law_entries_that_are_repositories(entry: EntryView, name: Seq<char>)
    ensures
        entry.is_dir && entry.name == vstd::utf8::encode_utf8(name) ==> repo_name(entry) == Some(name),
        repo_name(entry) == Some(name) ==> entry.is_dir && entry.name == vstd::utf8::encode_utf8(name),
        !entry.is_dir ==> repo_name(entry) is None,
{
    vstd::utf8::encode_utf8_valid_utf8(name);
    vstd::utf8::encode_utf8_decode_utf8(name);
    if valid_utf8(entry.name) {
        vstd::utf8::decode_utf8_encode_utf8(entry.name);
    }
}

/// Each repository that the visitor may view is listed once for each time it was found,
/// and the list is in order.
pub proof fn law_list_of_repositories(
    entries: Seq<EntryView>,
    entry: EntryView,
    visitor: VisitorView,
    settings: SettingsView,
    groups: Map<Seq<char>, Seq<char>>,
    i: int,
    j: int,
)
    ensures
        visible_names(Seq::<EntryView>::empty(), visitor, settings, groups).len() == 0,
        (repo_name(entry) matches Some(name) && may(visitor, settings, entry.config, groups, Need::View)) ==> visible_names(
            entries.push(entry),
            visitor,
            settings,
            groups,
        ) == visible_names(entries, visitor, settings, groups).push(repo_name(entry)->0),
        repo_name(entry) is None || !may(visitor, settings, entry.config, groups, Need::View) ==> visible_names(
            entries.push(entry),
            visitor,
            settings,
            groups,
        ) == visible_names(entries, visitor, settings, groups),
        listed_names(entries, visitor, settings, groups).to_multiset() == visible_names(
            entries,
            visitor,
            settings,
            groups,
        ).to_multiset(),
        0 <= i < j < listed_names(entries, visitor, settings, groups).len() ==> crate::order::text_le(
            listed_names(entries, visitor, settings, groups)[i],
            listed_names(entries, visitor, settings, groups)[j],
        ),
{
    assert(entries.push(entry).drop_last() =~= entries);
    crate::order::law_order_keeps_the_texts(visible_names(entries, visitor, settings, groups), i, j);
}

/// The list of repositories is sent as a JSON array of exactly the names.
pub proof fn law_list_is_sent_whole(names: Seq<Seq<char>>)
    ensures
        repos_view(names) matches AnswerView::Response(r) && r.status == 200 && r.content_type == Some(
            "application/json; charset=utf-8"@,
        ) && r.headers.len() == 0 && r.body == BodyView::Bytes(json_array(names)),
{
}

/// A repository is created where nothing stands against it: for the administrator and
/// for an account with the right, where there is room, under a name that is accepted and
/// not taken. The answer is the name of its directory.
pub proof fn law_creation_succeeds(creation: Creation, run: GitView)
    requires
        creation.by.visitor.identity == Some(creation.by.settings.admin_email) || (
        creation.by.visitor.identity matches Some(email) && creation.by.accounts.emails.contains(email)
            && creation.by.accounts.can_create_repos.contains(email)),
        creation.room,
        repo_name_refusal(creation.name) is None,
        !creation.exists,
        creation.root_failed is None,
        run matches GitView::Ran { success, .. } && success,
    ensures
        crate::reply::says(creation_answer(creation, run), 201, repo_dir(creation.name)),
{
}

/// What stands against a new repository is said, and the first thing first: no right, no
/// room, a bad name, a name that is taken, no directory for the repositories, and `git`.
pub proof fn law_what_stands_against_a_creation(creation: Creation, run: GitView, message: Seq<char>)
    ensures
        ({
            let visitor = creation.by.visitor;
            let right = visitor.identity == Some(creation.by.settings.admin_email) || (visitor.identity matches Some(
                email,
            ) && creation.by.accounts.emails.contains(email) && creation.by.accounts.can_create_repos.contains(email));
            let answer = creation_answer(creation, run);
            let good = repo_name_refusal(creation.name) is None;
            &&& !right ==> answer == (AnswerView::Failure {
                status: 403,
                message: "repository creation not permitted for this account"@,
            })
            &&& right && !creation.room ==> (answer matches AnswerView::Response(r) && r.status == 507 && r.content_type
                == Some("application/json"@) && r.headers.len() == 0 && r.body == BodyView::Bytes(creation.report))
            &&& right && creation.room && !good ==> answer == (AnswerView::Failure {
                status: 400,
                message: "invalid repository name"@,
            })
            &&& right && creation.room && good && creation.exists ==> crate::reply::says(
                answer,
                409,
                "repository already exists"@,
            )
            &&& right && creation.room && good && !creation.exists && creation.root_failed == Some(message) ==> answer
                == (AnswerView::Failure { status: 500, message })
            &&& right && creation.room && good && !creation.exists && creation.root_failed is None && run
                == GitView::NotStarted(message) ==> answer == (AnswerView::Failure {
                status: 500,
                message: "failed to spawn git init: "@ + message,
            })
            &&& right && creation.room && good && !creation.exists && creation.root_failed is None && (
            run matches GitView::Ran { success, .. } && !success) ==> answer == (AnswerView::Failure {
                status: 500,
                message: "git init --bare failed"@,
            })
        }),
        creation_stop(creation) is None ==> creation_answer(creation, run) == init_answer(repo_dir(creation.name), run),
        creation_stop(creation) matches Some(answer) ==> creation_answer(creation, run) == answer,
{
}

/// What entries and runs say is what they hold.
pub proof fn law_entries_and_runs_show_their_fields(entry: RepoEntry, run: GitRun)
    ensures
        entry@.name == entry.name@,
        entry@.is_dir == entry.is_dir,
        entry@.config == entry.config@,
        match run {
            GitRun::NotStarted(message) => run@ == GitView::NotStarted(message@),
            GitRun::Ran { success, stdout, stderr } => run@ == (GitView::Ran {
                success,
                stdout: stdout@,
                stderr: stderr@,
            }),
        },
{
}

/// The entries of a list say what each of them says, at its place.
pub proof fn law_lists_of_entries(list: Seq<RepoEntry>, i: int)
    ensures
        entry_views(list).len() == list.len(),
        0 <= i < list.len() ==> entry_views(list)[i] == list[i]@,
{
}

} // verus!
