//! The administrator's decision on a request for access.
//!
//! A decision takes up to two writes. [`decide_access_request`] takes the request off
//! the list, [`Decided::saved`] goes on once the accounts are written, and
//! [`Grant::found`] and [`GrantWrite::saved`] write the permission into the settings
//! of the repository that the request names.

use vstd::prelude::*;
use crate::access::{AccessConfig, AccessView, AccountPermission, Need, Settings, SettingsView, Visitor, VisitorView,
    account_grants, admin_refusal, allows, permits, require_admin_session};
use crate::accounts::{AccessRequest, AccountStore, AccountsView, RequestView, account_added, is_locked_out,
    locked_out, locked_response, locked_view, request_views};
use crate::login::may_log_in;
use crate::names::{repo_dir, repo_name_refusal, sanitize_repo_name};
use crate::outside::maybe_text;
use crate::reply::{Answer, AnswerView, failure_view, response, response_view};
use crate::text::same_text;

verus! {

/// What the administrator decides.
#[derive(Clone, Copy, Debug, PartialEq, Eq, Structural)]
pub struct Ruling {
    pub approve: bool,
    pub allow_view: bool,
    pub allow_download: bool,
    pub allow_push: bool,
}

/// The permission that a ruling gives.
pub open spec fn ruled_permission(ruling: Ruling) -> AccountPermission {
    AccountPermission {
        allow_view: ruling.allow_view,
        allow_download: ruling.allow_download,
        allow_push: ruling.allow_push,
    }
}

/// The position of the first request with an id.
pub open spec fn is_first_with_id(list: Seq<RequestView>, id: Seq<char>, i: int) -> bool {
    0 <= i < list.len() && list[i].id == id && forall|j: int| 0 <= j < i ==> (#[trigger] list[j]).id != id
}

/// Some request has the id.
pub open spec fn has_id(list: Seq<RequestView>, id: Seq<char>) -> bool {
    exists|i: int| is_first_with_id(list, id, i)
}

/// The position of the first request with an id.
pub open spec fn position_of_id(list: Seq<RequestView>, id: Seq<char>) -> int {
    choose|i: int| is_first_with_id(list, id, i)
}

/// The answer where there is no request to decide on.
pub open spec fn decide_refusal(
    visitor: VisitorView,
    settings: SettingsView,
    id: Seq<char>,
    store: AccountsView,
) -> Option<AnswerView> {
    match admin_refusal(visitor, settings) {
        Some(answer) => Some(answer),
        None => if !has_id(store.pending_requests, id) {
            Some(response_view(404, "request not found"@))
        } else {
            None
        },
    }
}

/// A decision whose accounts are to be written.
pub struct DecidedView {
    pub accounts: AccountsView,
    pub request: RequestView,
    pub ruling: Ruling,
    /// The approval cannot be carried out, since the address may not become an account.
    pub locked_out: bool,
}

/// The decision that a ruling on a request is: the request leaves the list, and an
/// approval makes its address an account, unless it may not become one.
pub open spec fn decision(settings: SettingsView, id: Seq<char>, ruling: Ruling, store: AccountsView) -> DecidedView {
    let at = position_of_id(store.pending_requests, id);
    let request = store.pending_requests[at];
    let locked_out = ruling.approve && is_locked_out(settings, request.email);
    let left = AccountsView { pending_requests: store.pending_requests.remove(at), ..store };
    DecidedView {
        accounts: if ruling.approve && !locked_out {
            account_added(left, request.email)
        } else {
            left
        },
        request,
        ruling,
        locked_out,
    }
}

/// A decision whose accounts are to be written.
pub struct Decided {
    store: AccountStore,
    request: AccessRequest,
    ruling: Ruling,
    locked_out: bool,
}

impl View for Decided {
    type V = DecidedView;

    closed spec fn view(&self) -> DecidedView {
        DecidedView {
            accounts: self.store@,
            request: self.request@,
            ruling: self.ruling,
            locked_out: self.locked_out,
        }
    }
}

/// What the person who asked is told.
pub struct DecisionNotice {
    pub email: String,
    pub approved: bool,
    pub repo: Option<String>,
}

/// A decision that has been carried out.
pub struct Settled {
    pub notice: DecisionNotice,
    pub answer: Answer,
}

/// What a [`Settled`] says.
pub struct SettledView {
    pub email: Seq<char>,
    pub approved: bool,
    pub repo: Option<Seq<char>>,
    pub answer: AnswerView,
}

impl View for Settled {
    type V = SettledView;

    open spec fn view(&self) -> SettledView {
        SettledView {
            email: self.notice.email@,
            approved: self.notice.approved,
            repo: maybe_text(self.notice.repo),
            answer: self.answer@,
        }
    }
}

/// How a decision on a request ends: the person who asked is told of it.
pub open spec fn settled(request: RequestView, ruling: Ruling) -> SettledView {
    SettledView {
        email: request.email,
        approved: ruling.approve,
        repo: request.repo,
        answer: response_view(200, if ruling.approve {
            "approved"@
        } else {
            "denied"@
        }),
    }
}

/// Ends a decision.
fn settle(request: AccessRequest, ruling: Ruling) -> (done: Settled)
    ensures
        done@ == settled(request@, ruling),
{
    let answer = if ruling.approve {
        response(200, "approved")
    } else {
        response(200, "denied")
    };
    Settled { notice: DecisionNotice { email: request.email, approved: ruling.approve, repo: request.repo }, answer }
}

/// An approval that names a repository, which is to be looked up.
pub struct GrantView {
    pub dir: Seq<char>,
    pub request: RequestView,
    pub ruling: Ruling,
}

/// An approval that names a repository, which is to be looked up.
pub struct Grant {
    dir: String,
    request: AccessRequest,
    ruling: Ruling,
}

impl View for Grant {
    type V = GrantView;

    closed spec fn view(&self) -> GrantView {
        GrantView { dir: self.dir@, request: self.request@, ruling: self.ruling }
    }
}

/// What follows once the accounts are written.
pub enum AfterAccounts {
    Settled(Settled),
    Grant(Grant),
}

/// What an [`AfterAccounts`] says.
pub enum AfterAccountsView {
    Settled(SettledView),
    Grant(GrantView),
}

impl View for AfterAccounts {
    type V = AfterAccountsView;

    open spec fn view(&self) -> AfterAccountsView {
        match self {
            AfterAccounts::Settled(done) => AfterAccountsView::Settled(done@),
            AfterAccounts::Grant(grant) => AfterAccountsView::Grant(grant@),
        }
    }
}

/// What follows the write of the accounts: an answer where it failed, where the
/// address may not become an account, or where the request names a repository with a
/// bad name; else the grant for the repository that an approved request names; else
/// the end.
pub open spec fn after_accounts(decided: DecidedView, failed: Option<Seq<char>>) -> Result<
    AfterAccountsView,
    AnswerView,
> {
    if failed is Some {
        Err(failure_view(500, failed->0))
    } else if decided.locked_out {
        Err(locked_view())
    } else if decided.ruling.approve && decided.request.repo is Some {
        match repo_name_refusal(decided.request.repo->0) {
            Some(answer) => Err(answer),
            None => Ok(
                AfterAccountsView::Grant(
                    GrantView {
                        dir: repo_dir(decided.request.repo->0),
                        request: decided.request,
                        ruling: decided.ruling,
                    },
                ),
            ),
        }
    } else {
        Ok(AfterAccountsView::Settled(settled(decided.request, decided.ruling)))
    }
}

/// Takes a request off the list and makes its address an account, as a ruling says.
pub fn decide_access_request(
    visitor: &Visitor,
    settings: &Settings,
    id: &str,
    ruling: Ruling,
    store: AccountStore,
) -> (result: Result<Decided, Answer>)
    ensures
        match result {
            Ok(decided) => decide_refusal(visitor@, settings@, id@, store@) == None::<AnswerView> && decided@
                == decision(settings@, id@, ruling, store@),
            Err(answer) => decide_refusal(visitor@, settings@, id@, store@) == Some(answer@),
        },
{
    match require_admin_session(visitor, settings) {
        Ok(()) => {},
        Err(answer) => {
            return Err(answer);
        },
    }
    let ghost all = request_views(store.pending_requests@);
    let mut at: usize = 0;
    while at < store.pending_requests.len() && !same_text(&store.pending_requests[at].id, id)
        invariant
            at <= store.pending_requests@.len(),
            all == request_views(store.pending_requests@),
            forall|j: int| 0 <= j < at ==> (#[trigger] all[j]).id != id@,
        decreases store.pending_requests@.len() - at,
    {
        assert(all[at as int] == store.pending_requests@[at as int]@);
        at += 1;
    }
    if at == store.pending_requests.len() {
        return Err(response(404, "request not found"));
    }
    assert(all[at as int] == store.pending_requests@[at as int]@);
    assert(is_first_with_id(all, id@, at as int));
    assert(position_of_id(all, id@) == at) by {
        let other = position_of_id(all, id@);
        assert(is_first_with_id(all, id@, other));
        assert(!(other < at) && !(at < other));
    }
    let mut record = store;
    let request = record.pending_requests.remove(at);
    assert(request_views(record.pending_requests@) =~= all.remove(at as int));
    let locked: bool = ruling.approve && locked_out(settings, &request.email);
    if ruling.approve && !locked {
        record.emails.insert(request.email.clone());
    }
    Ok(Decided { store: record, request, ruling, locked_out: locked })
}

impl Decided {
    /// The accounts as they are to be written.
    pub fn record(&self) -> (store: &AccountStore)
        ensures
            store@ == self@.accounts,
    {
        &self.store
    }

    /// What follows the write of the accounts.
    pub fn saved(self, failed: Option<String>) -> (result: Result<AfterAccounts, Answer>)
        ensures
            match result {
                Ok(next) => after_accounts(self@, maybe_text(failed)) == Ok::<AfterAccountsView, AnswerView>(next@),
                Err(answer) => after_accounts(self@, maybe_text(failed)) == Err::<AfterAccountsView, AnswerView>(
                    answer@,
                ),
            },
    {
        match failed {
            Some(message) => {
                return Err(Answer::Failure { status: 500, message });
            },
            None => {},
        }
        if self.locked_out {
            return Err(locked_response());
        }
        if self.ruling.approve {
            let dir: Option<String> = match &self.request.repo {
                Some(repo) => match sanitize_repo_name(repo) {
                    Ok(dir) => Some(dir),
                    Err(answer) => {
                        return Err(answer);
                    },
                },
                None => None,
            };
            match dir {
                Some(dir) => {
                    return Ok(AfterAccounts::Grant(Grant { dir, request: self.request, ruling: self.ruling }));
                },
                None => {},
            }
        }
        Ok(AfterAccounts::Settled(settle(self.request, self.ruling)))
    }
}

/// Settings with the permission of a ruling in them.
pub open spec fn config_granted(config: AccessView, email: Seq<char>, ruling: Ruling) -> AccessView {
    AccessView { accounts: config.accounts.insert(email, ruled_permission(ruling)), ..config }
}

/// Settings that are to be written.
pub struct GrantWriteView {
    pub dir: Seq<char>,
    pub config: AccessView,
    pub request: RequestView,
    pub ruling: Ruling,
}

/// Settings that are to be written.
pub struct GrantWrite {
    dir: String,
    config: AccessConfig,
    request: AccessRequest,
    ruling: Ruling,
}

impl View for GrantWrite {
    type V = GrantWriteView;

    closed spec fn view(&self) -> GrantWriteView {
        GrantWriteView { dir: self.dir@, config: self.config@, request: self.request@, ruling: self.ruling }
    }
}

/// What follows once the repository is looked up.
pub enum AfterLookup {
    Settled(Settled),
    Write(GrantWrite),
}

impl Grant {
    /// The directory of the repository to look up.
    pub fn dir(&self) -> (dir: &str)
        ensures
            dir@ == self@.dir,
    {
        &self.dir
    }

    /// What follows once the repository is looked up: its settings, where there is
    /// one, get the permission.
    pub fn found(self, config: Option<AccessConfig>) -> (next: AfterLookup)
        ensures
            match next {
                AfterLookup::Settled(done) => config is None && done@ == settled(self@.request, self@.ruling),
                AfterLookup::Write(write) => config is Some && write@.dir == self@.dir && write@.config
                    == config_granted(config->0@, self@.request.email, self@.ruling) && write@.request == self@.request
                    && write@.ruling == self@.ruling && write@.config.accounts[self@.request.email]
                    == (AccountPermission {
                    allow_view: self@.ruling.allow_view,
                    allow_download: self@.ruling.allow_download,
                    allow_push: self@.ruling.allow_push,
                }),
            },
    {
        match config {
            None => AfterLookup::Settled(settle(self.request, self.ruling)),
            Some(found) => {
                let mut config = found;
                config.accounts.insert(
                    self.request.email.clone(),
                    AccountPermission {
                        allow_view: self.ruling.allow_view,
                        allow_download: self.ruling.allow_download,
                        allow_push: self.ruling.allow_push,
                    },
                );
                AfterLookup::Write(GrantWrite { dir: self.dir, config, request: self.request, ruling: self.ruling })
            },
        }
    }
}

impl GrantWrite {
    /// The directory of the repository.
    pub fn dir(&self) -> (dir: &str)
        ensures
            dir@ == self@.dir,
    {
        &self.dir
    }

    /// The settings as they are to be written.
    pub fn record(&self) -> (config: &AccessConfig)
        ensures
            config@ == self@.config,
    {
        &self.config
    }

    /// The end of the decision, or the answer where the write failed.
    pub fn saved(self, failed: Option<String>) -> (result: Result<Settled, Answer>)
        ensures
            match result {
                Ok(done) => failed is None && done@ == settled(self@.request, self@.ruling),
                Err(answer) => failed is Some && answer@ == failure_view(500, failed->0@),
            },
    {
        match failed {
            Some(message) => Err(Answer::Failure { status: 500, message }),
            None => Ok(settle(self.request, self.ruling)),
        }
    }
}

/// A decision takes exactly one request off the list; the others stay in their order.
pub proof fn law_decision_takes_one_request(settings: SettingsView, id: Seq<char>, ruling: Ruling, store: AccountsView)
    requires
        has_id(store.pending_requests, id),
    ensures
        decision(settings, id, ruling, store).request.id == id,
        decision(settings, id, ruling, store).accounts.pending_requests.len() == store.pending_requests.len() - 1,
        decision(settings, id, ruling, store).accounts.pending_requests.to_multiset()
            == store.pending_requests.to_multiset().remove(decision(settings, id, ruling, store).request),
{
    let at = position_of_id(store.pending_requests, id);
    assert(is_first_with_id(store.pending_requests, id, at));
    vstd::seq_lib::to_multiset_remove(store.pending_requests, at);
}

/// A denial grants nothing: the accounts and their rights stay as they were, and no
/// settings of a repository are written.
pub proof fn law_denial_grants_nothing(
    settings: SettingsView,
    id: Seq<char>,
    ruling: Ruling,
    store: AccountsView,
    failed: Option<Seq<char>>,
)
    requires
        !ruling.approve,
        has_id(store.pending_requests, id),
    ensures
        decision(settings, id, ruling, store).accounts.emails == store.emails,
        decision(settings, id, ruling, store).accounts.can_create_repos == store.can_create_repos,
        !(after_accounts(decision(settings, id, ruling, store), failed) matches Ok(AfterAccountsView::Grant(_))),
{
}

/// While accounts are locked, a decision makes no address an account but the
/// administrator's, and an approval of another address is answered as a refusal and
/// writes no settings of a repository.
pub proof fn law_lock_stops_approval(
    settings: SettingsView,
    id: Seq<char>,
    ruling: Ruling,
    store: AccountsView,
    email: Seq<char>,
)
    requires
        settings.accounts_locked,
        has_id(store.pending_requests, id),
    ensures
        decision(settings, id, ruling, store).accounts.emails.contains(email) ==> store.emails.contains(email) || email
            == settings.admin_email,
        ruling.approve && decision(settings, id, ruling, store).request.email != settings.admin_email
            ==> after_accounts(decision(settings, id, ruling, store), None) == Err::<AfterAccountsView, AnswerView>(
            locked_view(),
        ),
{
}

/// An approval makes the address of the request an account, which may log in from
/// then on, unless accounts are locked and it is not the administrator's.
pub proof fn law_approval_makes_an_account(settings: SettingsView, id: Seq<char>, ruling: Ruling, store: AccountsView)
    requires
        has_id(store.pending_requests, id),
        ruling.approve,
        !is_locked_out(settings, decision(settings, id, ruling, store).request.email),
    ensures
        may_log_in(
            settings,
            decision(settings, id, ruling, store).accounts,
            decision(settings, id, ruling, store).request.email,
        ),
        decision(settings, id, ruling, store).accounts.emails == store.emails.insert(
            decision(settings, id, ruling, store).request.email,
        ),
        decision(settings, id, ruling, store).accounts.can_create_repos == store.can_create_repos,
{
}

/// An approval gives the account exactly what was ticked: afterwards the account
/// holds a permission in the settings, and it covers a need if and only if the
/// ruling allows it.
pub proof fn law_approval_grants_what_was_ticked(config: AccessView, email: Seq<char>, ruling: Ruling, need: Need)
    ensures
        account_grants(config_granted(config, email, ruling), need, Some(email)) <==> permits(
            ruled_permission(ruling),
            need,
        ),
{
}

/// An approval leaves everything else in the settings as it was, for every other
/// account and for the mode.
pub proof fn law_approval_changes_one_account(
    config: AccessView,
    email: Seq<char>,
    ruling: Ruling,
    need: Need,
    groups: Map<Seq<char>, Seq<char>>,
    token: Option<Seq<char>>,
    identity: Option<Seq<char>>,
)
    requires
        identity != Some(email),
    ensures
        allows(config_granted(config, email, ruling), need, groups, token, identity) == allows(
            config,
            need,
            groups,
            token,
            identity,
        ),
{
}

/// After a grant the settings hold for the account the three rights as they were ticked,
/// each its own, and everything else in them is as it was.
pub proof fn law_grant_writes_the_ticked_rights(config: AccessView, email: Seq<char>, ruling: Ruling, other: Seq<char>)
    ensures
        ({
            let after = config_granted(config, email, ruling);
            &&& after.accounts.dom().contains(email)
            &&& after.accounts[email].allow_view == ruling.allow_view
            &&& after.accounts[email].allow_download == ruling.allow_download
            &&& after.accounts[email].allow_push == ruling.allow_push
            &&& other != email ==> (after.accounts.dom().contains(other) <==> config.accounts.dom().contains(other))
            &&& other != email && config.accounts.dom().contains(other) ==> after.accounts[other]
                == config.accounts[other]
            &&& after.mode == config.mode
            &&& after.group == config.group
            &&& after.allow_view == config.allow_view
            &&& after.allow_download == config.allow_download
        }),
{
}

/// After a grant the account may do in the repository what was ticked.
pub proof fn law_granted_account_may(
    settings: SettingsView,
    config: AccessView,
    email: Seq<char>,
    ruling: Ruling,
    groups: Map<Seq<char>, Seq<char>>,
    token: Option<Seq<char>>,
)
    ensures
        ({
            let visitor = VisitorView { identity: Some(email), group_token: token };
            let after = config_granted(config, email, ruling);
            &&& ruling.allow_view ==> crate::access::may(visitor, settings, after, groups, Need::View)
            &&& ruling.allow_download ==> crate::access::may(visitor, settings, after, groups, Need::Download)
            &&& ruling.allow_push ==> crate::access::may(visitor, settings, after, groups, Need::Push)
            &&& !ruling.allow_push && email != settings.admin_email ==> !crate::access::may(
                visitor,
                settings,
                after,
                groups,
                Need::Push,
            )
        }),
{
}

/// A decision is about the first request with the id. The request leaves the list, and
/// its address is an account afterwards where it was approved and may become one.
pub proof fn law_what_a_decision_does(
    settings: SettingsView,
    id: Seq<char>,
    ruling: Ruling,
    store: AccountsView,
    at: int,
    other: Seq<char>,
)
    requires
        0 <= at < store.pending_requests.len(),
        store.pending_requests[at].id == id,
        forall|j: int| 0 <= j < at ==> (#[trigger] store.pending_requests[j]).id != id,
    ensures
        ({
            let request = store.pending_requests[at];
            let locked = settings.accounts_locked && request.email != settings.admin_email;
            let done = decision(settings, id, ruling, store);
            &&& has_id(store.pending_requests, id)
            &&& done.request == request
            &&& done.ruling == ruling
            &&& done.locked_out == (ruling.approve && locked)
            &&& done.accounts.pending_requests == store.pending_requests.take(at) + store.pending_requests.skip(at + 1)
            &&& done.accounts.can_create_repos == store.can_create_repos
            &&& done.accounts.emails.contains(other) <==> store.emails.contains(other) || (ruling.approve && !locked
                && other == request.email)
        }),
{
    let list = store.pending_requests;
    assert(is_first_with_id(list, id, at));
    let found = position_of_id(list, id);
    assert(is_first_with_id(list, id, found));
    assert(!(found < at) && !(at < found));
    assert(list.remove(at) =~= list.take(at) + list.skip(at + 1));
}

/// The administrator decides on a request that waits; nobody else does, and a request
/// that does not wait is said not to be there.
pub proof fn law_who_decides(
    visitor: VisitorView,
    settings: SettingsView,
    id: Seq<char>,
    store: AccountsView,
    at: int,
)
    ensures
        visitor.identity != Some(settings.admin_email) ==> decide_refusal(visitor, settings, id, store) == Some(
            (AnswerView::Failure { status: 401, message: "admin login required"@ }),
        ),
        visitor.identity == Some(settings.admin_email) && (forall|j: int|
            0 <= j < store.pending_requests.len() ==> (#[trigger] store.pending_requests[j]).id != id) ==> (decide_refusal(
            visitor,
            settings,
            id,
            store,
        ) matches Some(answer) && crate::reply::says(answer, 404, "request not found"@)),
        visitor.identity == Some(settings.admin_email) && 0 <= at < store.pending_requests.len()
            && store.pending_requests[at].id == id ==> decide_refusal(visitor, settings, id, store) is None,
{
    if 0 <= at < store.pending_requests.len() && store.pending_requests[at].id == id {
        lemma_first_with_id(store.pending_requests, id, at);
    }
}

/// Where a request has the id, one is the first to have it.
proof fn lemma_first_with_id(list: Seq<RequestView>, id: Seq<char>, at: int)
    requires
        0 <= at < list.len(),
        list[at].id == id,
    ensures
        has_id(list, id),
    decreases at,
{
    if exists|j: int| 0 <= j < at && (#[trigger] list[j]).id == id {
        let j = choose|j: int| 0 <= j < at && (#[trigger] list[j]).id == id;
        lemma_first_with_id(list, id, j);
    } else {
        assert(is_first_with_id(list, id, at));
    }
}

/// How a decision goes on once the accounts are written: a failed write is reported; an
/// approval of an address that may not become an account is refused; an approval that
/// names a repository goes on to its directory; everything else ends, and the person who
/// asked is told of the decision that was made.
pub proof fn law_how_a_decision_goes_on(decided: DecidedView, message: Seq<char>)
    ensures
        after_accounts(decided, Some(message)) == Err::<AfterAccountsView, AnswerView>(
            (AnswerView::Failure { status: 500, message }),
        ),
        decided.locked_out ==> (after_accounts(decided, None) matches Err(answer) && crate::reply::says(
            answer,
            403,
            "account registration is currently restricted to the administrator email only"@,
        )),
        !decided.locked_out && (!decided.ruling.approve || decided.request.repo is None) ==> (after_accounts(
            decided,
            None,
        ) matches Ok(AfterAccountsView::Settled(done)) && done.email == decided.request.email && done.approved
            == decided.ruling.approve && done.repo == decided.request.repo && crate::reply::says(
            done.answer,
            200,
            if decided.ruling.approve {
                "approved"@
            } else {
                "denied"@
            },
        )),
        !decided.locked_out && decided.ruling.approve && decided.request.repo is Some && repo_name_refusal(
            decided.request.repo->0,
        ) is None ==> (after_accounts(decided, None) matches Ok(AfterAccountsView::Grant(grant)) && grant.dir == repo_dir(
            decided.request.repo->0,
        ) && grant.request == decided.request && grant.ruling == decided.ruling),
        !decided.locked_out && decided.ruling.approve && decided.request.repo is Some && repo_name_refusal(
            decided.request.repo->0,
        ) is Some ==> after_accounts(decided, None) == Err::<AfterAccountsView, AnswerView>(
            (AnswerView::Failure { status: 400, message: "invalid repository name"@ }),
        ),
{
}

/// How a decision ends: the person who asked is told, with the address and the
/// repository of the request, and the administrator is answered.
pub proof fn law_how_a_decision_ends(request: RequestView, ruling: Ruling)
    ensures
        settled(request, ruling).email == request.email,
        settled(request, ruling).repo == request.repo,
        settled(request, ruling).approved == ruling.approve,
        ruling.approve ==> crate::reply::says(settled(request, ruling).answer, 200, "approved"@),
        !ruling.approve ==> crate::reply::says(settled(request, ruling).answer, 200, "denied"@),
{
}

} // verus!
