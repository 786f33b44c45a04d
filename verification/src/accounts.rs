//! Accounts and requests for access.

use vstd::prelude::*;
use crate::access::{Settings, SettingsView, Visitor, VisitorView, admin_refusal, is_admin, require_admin_session};
use crate::order::{is_listing, listing};
use crate::outside::maybe_text;
use crate::reply::{Answer, AnswerView, Body, BodyView, Change, json_response, json_view, names_response, names_view,
    reads_names, response, response_view, says, written_view};
use crate::store::TextSet;
use crate::text::{contains_char, same_text, trim, trimmed, view_of};

verus! {

/// A request for access that waits for the administrator.
pub struct AccessRequest {
    pub id: String,
    pub email: String,
    pub repo: Option<String>,
    pub message: Option<String>,
    pub is_create_repo_request: bool,
}

/// What an [`AccessRequest`] says.
pub struct RequestView {
    pub id: Seq<char>,
    pub email: Seq<char>,
    pub repo: Option<Seq<char>>,
    pub message: Option<Seq<char>>,
    pub is_create_repo_request: bool,
}

impl View for AccessRequest {
    type V = RequestView;

    open spec fn view(&self) -> RequestView {
        RequestView {
            id: self.id@,
            email: self.email@,
            repo: maybe_text(self.repo),
            message: maybe_text(self.message),
            is_create_repo_request: self.is_create_repo_request,
        }
    }
}

/// The views of a list of requests.
pub open spec fn request_views(list: Seq<AccessRequest>) -> Seq<RequestView> {
    list.map_values(|r: AccessRequest| r@)
}

/// The accounts.
pub struct AccountStore {
    /// The addresses that may log in.
    pub emails: TextSet,
    /// The addresses that may create repositories.
    pub can_create_repos: TextSet,
    /// The requests that wait for the administrator, oldest first.
    pub pending_requests: Vec<AccessRequest>,
}

/// What an [`AccountStore`] holds.
pub struct AccountsView {
    pub emails: Set<Seq<char>>,
    pub can_create_repos: Set<Seq<char>>,
    pub pending_requests: Seq<RequestView>,
}

impl View for AccountStore {
    type V = AccountsView;

    open spec fn view(&self) -> AccountsView {
        AccountsView {
            emails: self.emails@,
            can_create_repos: self.can_create_repos@,
            pending_requests: request_views(self.pending_requests@),
        }
    }
}

/// The answer where an address may not become an account.
pub open spec fn locked_view() -> AnswerView {
    response_view(403, "account registration is currently restricted to the administrator email only"@)
}

/// The answer where an address may not become an account.
pub(crate) fn locked_response() -> (answer: Answer)
    ensures
        answer@ == locked_view(),
{
    response(403, "account registration is currently restricted to the administrator email only")
}

/// Only the administrator's address may become an account, and this is another one.
pub open spec fn is_locked_out(settings: SettingsView, email: Seq<char>) -> bool {
    settings.accounts_locked && email != settings.admin_email
}

/// Whether only the administrator's address may become an account and this is another.
pub(crate) fn locked_out(settings: &Settings, email: &str) -> (locked: bool)
    ensures
        locked == is_locked_out(settings@, email@),
{
    settings.accounts_locked && !same_text(email, &settings.admin_email)
}

/// Whether accounts are locked, as the environment sets it: they are, unless it says
/// `false` or `0`.
pub open spec fn lock_setting(value: Option<Seq<char>>) -> bool {
    match value {
        Some(v) => v != "false"@ && v != "0"@,
        None => true,
    }
}

/// Whether accounts are locked, as the environment sets it.
pub fn accounts_locked(value: Option<&str>) -> (locked: bool)
    ensures
        locked == lock_setting(view_of(value)),
{
    match value {
        Some(v) => !same_text(v, "false") && !same_text(v, "0"),
        None => true,
    }
}

/// The answer where an address cannot be made an account.
pub open spec fn add_refusal(visitor: VisitorView, settings: SettingsView, email: Seq<char>) -> Option<AnswerView> {
    match admin_refusal(visitor, settings) {
        Some(answer) => Some(answer),
        None => if !trimmed(email).contains('@') {
            Some(response_view(400, "invalid email"@))
        } else if is_locked_out(settings, trimmed(email)) {
            Some(locked_view())
        } else {
            None
        },
    }
}

/// The accounts with one more address.
pub open spec fn account_added(store: AccountsView, email: Seq<char>) -> AccountsView {
    AccountsView { emails: store.emails.insert(email), ..store }
}

/// Makes an address an account.
pub fn add_account(visitor: &Visitor, settings: &Settings, email: &str, store: AccountStore) -> (result: Result<
    Change<AccountStore>,
    Answer,
>)
    ensures
        match result {
            Ok(change) => add_refusal(visitor@, settings@, email@) == None::<AnswerView> && change.record@
                == account_added(store@, trimmed(email@)) && change.done@ == response_view(201, "ok"@),
            Err(answer) => add_refusal(visitor@, settings@, email@) == Some(answer@),
        },
{
    match require_admin_session(visitor, settings) {
        Ok(()) => {},
        Err(answer) => {
            return Err(answer);
        },
    }
    let address = trim(email);
    if !contains_char(&address, '@') {
        return Err(response(400, "invalid email"));
    }
    if locked_out(settings, &address) {
        return Err(locked_response());
    }
    let mut record = store;
    record.emails.insert(address);
    Ok(Change { record, done: response(201, "ok") })
}

/// The answer to a request for the list of accounts.
pub open spec fn accounts_answer(visitor: VisitorView, settings: SettingsView, store: AccountsView) -> AnswerView {
    match admin_refusal(visitor, settings) {
        Some(answer) => answer,
        None => names_view(listing(store.emails)),
    }
}

/// The addresses of the accounts, in order.
pub fn list_accounts(visitor: &Visitor, settings: &Settings, store: &AccountStore) -> (answer: Answer)
    ensures
        answer@ == accounts_answer(visitor@, settings@, store@),
        is_admin(visitor@, settings@) ==> is_listing(listing(store@.emails), store@.emails) && reads_names(
            listing(store@.emails),
        ),
{
    match require_admin_session(visitor, settings) {
        Ok(()) => names_response(&store.emails.sorted_members()),
        Err(answer) => answer,
    }
}

/// The answer where there is no account to change.
pub open spec fn account_refusal(
    visitor: VisitorView,
    settings: SettingsView,
    email: Seq<char>,
    store: AccountsView,
) -> Option<AnswerView> {
    match admin_refusal(visitor, settings) {
        Some(answer) => Some(answer),
        None => if !store.emails.contains(email) {
            Some(response_view(404, "account not found"@))
        } else {
            None
        },
    }
}

/// The accounts without an address. What it may create is kept, for the case that it
/// comes back.
pub open spec fn account_removed(store: AccountsView, email: Seq<char>) -> AccountsView {
    AccountsView { emails: store.emails.remove(email), ..store }
}

/// Takes an address out of the accounts.
pub fn remove_account(visitor: &Visitor, settings: &Settings, email: &str, store: AccountStore) -> (result: Result<
    Change<AccountStore>,
    Answer,
>)
    ensures
        match result {
            Ok(change) => account_refusal(visitor@, settings@, email@, store@) == None::<AnswerView>
                && change.record@ == account_removed(store@, email@) && change.done@ == response_view(200, "ok"@),
            Err(answer) => account_refusal(visitor@, settings@, email@, store@) == Some(answer@),
        },
{
    match require_admin_session(visitor, settings) {
        Ok(()) => {},
        Err(answer) => {
            return Err(answer);
        },
    }
    let mut record = store;
    if !record.emails.remove(email) {
        return Err(response(404, "account not found"));
    }
    Ok(Change { record, done: response(200, "ok") })
}

/// The accounts with the right of one address to create repositories set.
pub open spec fn create_permission_set(store: AccountsView, email: Seq<char>, allow: bool) -> AccountsView {
    AccountsView {
        can_create_repos: if allow {
            store.can_create_repos.insert(email)
        } else {
            store.can_create_repos.remove(email)
        },
        ..store
    }
}

/// Sets whether an account may create repositories.
pub fn set_create_permission(
    visitor: &Visitor,
    settings: &Settings,
    email: &str,
    allow: bool,
    store: AccountStore,
) -> (result: Result<Change<AccountStore>, Answer>)
    ensures
        match result {
            Ok(change) => account_refusal(visitor@, settings@, email@, store@) == None::<AnswerView>
                && change.record@ == create_permission_set(store@, email@, allow) && change.done@ == response_view(
                200,
                "ok"@,
            ),
            Err(answer) => account_refusal(visitor@, settings@, email@, store@) == Some(answer@),
        },
{
    match require_admin_session(visitor, settings) {
        Ok(()) => {},
        Err(answer) => {
            return Err(answer);
        },
    }
    if !store.emails.contains(email) {
        return Err(response(404, "account not found"));
    }
    let mut record = store;
    if allow {
        record.can_create_repos.insert(email.to_owned());
    } else {
        let _found = record.can_create_repos.remove(email);
    }
    Ok(Change { record, done: response(200, "ok") })
}

/// The account that a visitor is logged in as may create repositories.
pub open spec fn may_create(visitor: VisitorView, store: AccountsView) -> bool {
    visitor.identity matches Some(email) && store.emails.contains(email) && store.can_create_repos.contains(email)
}

/// Whether the account that a visitor is logged in as may create repositories.
pub fn account_may_create(visitor: &Visitor, store: &AccountStore) -> (allowed: bool)
    ensures
        allowed == may_create(visitor@, store@),
{
    match &visitor.identity {
        Some(email) => store.emails.contains(email) && store.can_create_repos.contains(email),
        None => false,
    }
}

/// The answer to a request for access that names no address.
pub open spec fn request_refusal(email: Seq<char>) -> Option<AnswerView> {
    if !trimmed(email).contains('@') {
        Some(response_view(400, "invalid email"@))
    } else {
        None
    }
}

/// The accounts with one more request that waits.
pub open spec fn request_filed(store: AccountsView, request: RequestView) -> AccountsView {
    AccountsView { pending_requests: store.pending_requests.push(request), ..store }
}

/// The request that somebody without an account files.
pub open spec fn filed_request(
    email: Seq<char>,
    repo: Option<Seq<char>>,
    message: Option<Seq<char>>,
    id: Seq<char>,
) -> RequestView {
    RequestView { id, email: trimmed(email), repo, message, is_create_repo_request: false }
}

/// What the administrator is told of a new request.
pub struct RequestNotice {
    pub email: String,
    pub repo: Option<String>,
    pub message: Option<String>,
}

/// A request that is to be written.
pub struct FiledRequest {
    change: Change<AccountStore>,
    notice: RequestNotice,
}

impl FiledRequest {
    /// The accounts as they are to be written.
    pub closed spec fn accounts(&self) -> AccountsView {
        self.change.record@
    }

    /// The request that the administrator is told of.
    pub closed spec fn told(&self) -> (Seq<char>, Option<Seq<char>>, Option<Seq<char>>) {
        (self.notice.email@, maybe_text(self.notice.repo), maybe_text(self.notice.message))
    }

    /// The answer for the case that the write succeeds.
    pub closed spec fn prepared(&self) -> AnswerView {
        self.change.done@
    }

    /// The accounts as they are to be written.
    pub fn record(&self) -> (store: &AccountStore)
        ensures
            store@ == self.accounts(),
    {
        &self.change.record
    }

    /// The answer after the write, and what the administrator is told: something only
    /// where the write succeeded.
    pub fn saved(self, failed: Option<String>) -> (result: (Option<RequestNotice>, Answer))
        ensures
            result.1@ == written_view(self.prepared(), maybe_text(failed)),
            match result.0 {
                Some(notice) => failed is None && (notice.email@, maybe_text(notice.repo), maybe_text(notice.message))
                    == self.told(),
                None => failed is Some,
            },
    {
        let notice = if failed.is_some() {
            None
        } else {
            Some(self.notice)
        };
        (notice, self.change.saved(failed))
    }
}

/// A copy of an optional text.
fn copied(text: &Option<String>) -> (copy: Option<String>)
    ensures
        maybe_text(copy) == maybe_text(*text),
{
    match text {
        Some(s) => Some(s.clone()),
        None => None,
    }
}

/// Files a request for access. Anybody may.
pub fn request_access(
    email: &str,
    repo: Option<String>,
    message: Option<String>,
    id: String,
    store: AccountStore,
) -> (result: Result<FiledRequest, Answer>)
    ensures
        match result {
            Ok(filed) => request_refusal(email@) == None::<AnswerView> && filed.accounts() == request_filed(
                store@,
                filed_request(email@, maybe_text(repo), maybe_text(message), id@),
            ) && filed.told() == (trimmed(email@), maybe_text(repo), maybe_text(message)) && filed.prepared()
                == response_view(201, "request submitted"@),
            Err(answer) => request_refusal(email@) == Some(answer@),
        },
{
    let address = trim(email);
    if !contains_char(&address, '@') {
        return Err(response(400, "invalid email"));
    }
    let mut record = store;
    let ghost before = record.pending_requests@;
    let notice = RequestNotice { email: address.clone(), repo: copied(&repo), message: copied(&message) };
    let ghost request = filed_request(email@, maybe_text(repo), maybe_text(message), id@);
    record.pending_requests.push(
        AccessRequest { id, email: address, repo, message, is_create_repo_request: false },
    );
    assert(request_views(record.pending_requests@) =~= request_views(before).push(request));
    Ok(FiledRequest { change: Change { record, done: response(201, "request submitted") }, notice })
}

/// The answer to a request for the list of requests that wait.
pub open spec fn requests_answer(visitor: VisitorView, settings: SettingsView, store: AccountsView) -> AnswerView {
    match admin_refusal(visitor, settings) {
        Some(answer) => answer,
        None => json_view(200, BodyView::Requests(store.pending_requests)),
    }
}

/// The requests that wait, oldest first.
pub fn list_access_requests(visitor: &Visitor, settings: &Settings, store: AccountStore) -> (answer: Answer)
    ensures
        answer@ == requests_answer(visitor@, settings@, store@),
{
    match require_admin_session(visitor, settings) {
        Ok(()) => json_response(200, Body::Requests(store.pending_requests)),
        Err(answer) => answer,
    }
}

/// Filing a request changes nothing about what anybody may do: it only waits.
pub proof fn law_request_grants_nothing(store: AccountsView, request: RequestView, visitor: VisitorView)
    ensures
        request_filed(store, request).emails == store.emails,
        may_create(visitor, request_filed(store, request)) == may_create(visitor, store),
        request_filed(store, request).pending_requests.last() == request,
{
}

/// While accounts are locked, the only address that can be made an account is the
/// administrator's.
pub proof fn law_lock_stops_registration(visitor: VisitorView, settings: SettingsView, email: Seq<char>)
    requires
        settings.accounts_locked,
        add_refusal(visitor, settings, email) is None,
    ensures
        trimmed(email) == settings.admin_email,
{
}

/// The right to create repositories is what the administrator last set it to, and it
/// counts only for an account.
pub proof fn law_create_permission_takes_effect(store: AccountsView, email: Seq<char>, allow: bool, visitor: VisitorView)
    requires
        visitor.identity == Some(email),
    ensures
        may_create(visitor, create_permission_set(store, email, allow)) <==> allow && store.emails.contains(email),
        !may_create(visitor, account_removed(store, email)),
{
}

/// An address becomes an account where the administrator asks for it, the address holds
/// an `@`, and accounts are not locked or it is the administrator's own; what stands
/// against it first is what the answer says.
pub proof fn law_which_addresses_become_accounts(visitor: VisitorView, settings: SettingsView, email: Seq<char>)
    ensures
        add_refusal(visitor, settings, email) is None <==> visitor.identity == Some(settings.admin_email) && trimmed(
            email,
        ).contains('@') && (settings.accounts_locked ==> trimmed(email) == settings.admin_email),
        visitor.identity != Some(settings.admin_email) ==> add_refusal(visitor, settings, email) == Some(
            (AnswerView::Failure { status: 401, message: "admin login required"@ }),
        ),
        visitor.identity == Some(settings.admin_email) && !trimmed(email).contains('@') ==> (add_refusal(
            visitor,
            settings,
            email,
        ) matches Some(answer) && says(answer, 400, "invalid email"@)),
        visitor.identity == Some(settings.admin_email) && trimmed(email).contains('@') && settings.accounts_locked
            && trimmed(email) != settings.admin_email ==> (add_refusal(visitor, settings, email) matches Some(answer)
            && says(answer, 403, "account registration is currently restricted to the administrator email only"@)),
{
}

/// Each change of the accounts changes what it names and nothing else.
pub proof fn law_changes_are_confined(
    store: AccountsView,
    email: Seq<char>,
    other: Seq<char>,
    allow: bool,
    request: RequestView,
    i: int,
)
    ensures
        account_added(store, email).emails.contains(other) <==> other == email || store.emails.contains(other),
        account_added(store, email).can_create_repos == store.can_create_repos,
        account_added(store, email).pending_requests == store.pending_requests,
        account_removed(store, email).emails.contains(other) <==> other != email && store.emails.contains(other),
        account_removed(store, email).can_create_repos == store.can_create_repos,
        account_removed(store, email).pending_requests == store.pending_requests,
        create_permission_set(store, email, allow).can_create_repos.contains(email) <==> allow,
        other != email ==> (create_permission_set(store, email, allow).can_create_repos.contains(other)
            <==> store.can_create_repos.contains(other)),
        create_permission_set(store, email, allow).emails == store.emails,
        create_permission_set(store, email, allow).pending_requests == store.pending_requests,
        request_filed(store, request).pending_requests.len() == store.pending_requests.len() + 1,
        0 <= i < store.pending_requests.len() ==> request_filed(store, request).pending_requests[i]
            == store.pending_requests[i],
        request_filed(store, request).pending_requests[store.pending_requests.len() as int] == request,
        request_filed(store, request).emails == store.emails,
        request_filed(store, request).can_create_repos == store.can_create_repos,
{
}

/// An account is changed where the administrator asks for it and it exists, and a
/// missing one is said to be missing.
pub proof fn law_which_accounts_can_be_changed(
    visitor: VisitorView,
    settings: SettingsView,
    email: Seq<char>,
    store: AccountsView,
)
    ensures
        account_refusal(visitor, settings, email, store) is None <==> visitor.identity == Some(settings.admin_email)
            && store.emails.contains(email),
        visitor.identity != Some(settings.admin_email) ==> account_refusal(visitor, settings, email, store) == Some(
            (AnswerView::Failure { status: 401, message: "admin login required"@ }),
        ),
        visitor.identity == Some(settings.admin_email) && !store.emails.contains(email) ==> (account_refusal(
            visitor,
            settings,
            email,
            store,
        ) matches Some(answer) && says(answer, 404, "account not found"@)),
{
}

/// Anybody may file a request whose address holds an `@`, and it is filed as it was
/// sent, with the white space around the address taken off.
pub proof fn law_requests_are_filed_as_sent(
    email: Seq<char>,
    repo: Option<Seq<char>>,
    message: Option<Seq<char>>,
    id: Seq<char>,
)
    ensures
        request_refusal(email) is None <==> trimmed(email).contains('@'),
        !trimmed(email).contains('@') ==> (request_refusal(email) matches Some(answer) && says(
            answer,
            400,
            "invalid email"@,
        )),
        filed_request(email, repo, message, id).id == id,
        filed_request(email, repo, message, id).email == trimmed(email),
        filed_request(email, repo, message, id).repo == repo,
        filed_request(email, repo, message, id).message == message,
        !filed_request(email, repo, message, id).is_create_repo_request,
{
}

/// Accounts are locked, unless the environment says `false` or `0`.
pub proof fn law_accounts_are_locked_by_default(value: Seq<char>)
    ensures
        lock_setting(None),
        lock_setting(Some(value)) <==> value != seq!['f', 'a', 'l', 's', 'e'] && value != seq!['0'],
{
    reveal_strlit("false");
    reveal_strlit("0");
    assert("false"@ =~= seq!['f', 'a', 'l', 's', 'e']);
    assert("0"@ =~= seq!['0']);
}

/// Repositories may be created by an account that has the right, and only by one that
/// is logged in.
pub proof fn law_who_may_create(visitor: VisitorView, store: AccountsView, email: Seq<char>)
    ensures
        visitor.identity == Some(email) ==> (may_create(visitor, store) <==> store.emails.contains(email)
            && store.can_create_repos.contains(email)),
        visitor.identity is None ==> !may_create(visitor, store),
{
}

/// The lists of accounts and of requests are given to the administrator, whole, and to
/// nobody else.
pub proof fn law_lists_are_for_the_administrator(
    visitor: VisitorView,
    settings: SettingsView,
    store: AccountsView,
    list: Seq<Seq<char>>,
)
    requires
        is_listing(list, store.emails),
    ensures
        visitor.identity == Some(settings.admin_email) ==> (accounts_answer(visitor, settings, store) matches
            AnswerView::Response(r) && r.status == 200 && r.body == BodyView::Bytes(crate::outside::json_array(list))),
        visitor.identity == Some(settings.admin_email) ==> (requests_answer(visitor, settings, store) matches
            AnswerView::Response(r) && r.status == 200 && r.content_type == Some("application/json"@)
            && r.headers.len() == 0 && r.body == BodyView::Requests(store.pending_requests)),
        visitor.identity != Some(settings.admin_email) ==> accounts_answer(visitor, settings, store) == (
        AnswerView::Failure { status: 401, message: "admin login required"@ }),
        visitor.identity != Some(settings.admin_email) ==> requests_answer(visitor, settings, store) == (
        AnswerView::Failure { status: 401, message: "admin login required"@ }),
{
    crate::order::lemma_listing(list, store.emails);
}

/// What accounts and requests say is what their fields hold.
pub proof fn law_accounts_show_their_fields(store: AccountStore, i: int)
    ensures
        store@.emails == store.emails@,
        store@.can_create_repos == store.can_create_repos@,
        store@.pending_requests.len() == store.pending_requests@.len(),
        0 <= i < store.pending_requests@.len() ==> ({
            let shown = store@.pending_requests[i];
            let held = store.pending_requests@[i];
            &&& shown.id == held.id@
            &&& shown.email == held.email@
            &&& (shown.repo is Some <==> held.repo is Some)
            &&& (held.repo is Some ==> shown.repo->0 == held.repo->0@)
            &&& (shown.message is Some <==> held.message is Some)
            &&& (held.message is Some ==> shown.message->0 == held.message->0@)
            &&& shown.is_create_repo_request == held.is_create_repo_request
        }),
{
}

} // verus!
