//! Who may do what with a repository.

use vstd::prelude::*;
use crate::outside::maybe_text;
use crate::reply::{AnswerView, Answer, failure_view, failure, response_view, response, with_header, header_view};
use crate::store::TextMap;
use crate::text::{same_text, view_of};

verus! {

/// What a request wants to do with a repository.
#[derive(Clone, Copy, Debug, PartialEq, Eq, Structural)]
pub enum Need {
    View,
    Download,
    Push,
}

/// Who a repository is open to beside the accounts that it names.
#[derive(Clone, Copy, Debug, PartialEq, Eq, Structural)]
pub enum Mode {
    /// Nobody.
    Private,
    /// Everybody.
    Public,
    /// Whoever holds the invitation token of a group.
    Group,
}

/// What one account may do with a repository.
#[derive(Clone, Copy, Debug, PartialEq, Eq, Structural)]
pub struct AccountPermission {
    pub allow_view: bool,
    pub allow_download: bool,
    pub allow_push: bool,
}

/// The access settings of a repository.
pub struct AccessConfig {
    pub mode: Mode,
    /// The group that the repository is open to, in [`Mode::Group`].
    pub group: Option<String>,
    /// Whether those that the mode opens the repository to may view it.
    pub allow_view: bool,
    /// Whether those that the mode opens the repository to may download from it.
    pub allow_download: bool,
    /// What accounts may do, by e-mail address, whatever the mode is.
    pub accounts: TextMap<AccountPermission>,
}

/// What an [`AccessConfig`] says.
pub struct AccessView {
    pub mode: Mode,
    pub group: Option<Seq<char>>,
    pub allow_view: bool,
    pub allow_download: bool,
    pub accounts: Map<Seq<char>, AccountPermission>,
}

impl View for AccessConfig {
    type V = AccessView;

    open spec fn view(&self) -> AccessView {
        AccessView {
            mode: self.mode,
            group: maybe_text(self.group),
            allow_view: self.allow_view,
            allow_download: self.allow_download,
            accounts: self.accounts@,
        }
    }
}

/// A group and the token that invites into it.
pub struct GroupInfo {
    pub token: String,
}

/// The groups, by name.
pub struct GroupStore {
    pub groups: TextMap<GroupInfo>,
}

impl View for GroupStore {
    type V = Map<Seq<char>, Seq<char>>;

    /// The tokens of the groups, by group name.
    open spec fn view(&self) -> Map<Seq<char>, Seq<char>> {
        self.groups@.map_values(|info: GroupInfo| info.token@)
    }
}

/// The settings that the server runs with.
pub struct Settings {
    /// The administrator's e-mail address.
    pub admin_email: String,
    /// Whether only the administrator's address may become an account.
    pub accounts_locked: bool,
}

/// What a [`Settings`] says.
pub struct SettingsView {
    pub admin_email: Seq<char>,
    pub accounts_locked: bool,
}

impl View for Settings {
    type V = SettingsView;

    open spec fn view(&self) -> SettingsView {
        SettingsView { admin_email: self.admin_email@, accounts_locked: self.accounts_locked }
    }
}

/// Who sent a request.
pub struct Visitor {
    /// The e-mail address of the session, if the request is part of one.
    pub identity: Option<String>,
    /// The group token that the request carries, if it carries one.
    pub group_token: Option<String>,
}

/// What a [`Visitor`] says.
pub struct VisitorView {
    pub identity: Option<Seq<char>>,
    pub group_token: Option<Seq<char>>,
}

impl View for Visitor {
    type V = VisitorView;

    open spec fn view(&self) -> VisitorView {
        VisitorView { identity: maybe_text(self.identity), group_token: maybe_text(self.group_token) }
    }
}

/// The visitor is logged in as the administrator.
pub open spec fn is_admin(visitor: VisitorView, settings: SettingsView) -> bool {
    visitor.identity == Some(settings.admin_email)
}

/// A permission covers a need.
pub open spec fn permits(permission: AccountPermission, need: Need) -> bool {
    match need {
        Need::View => permission.allow_view,
        Need::Download => permission.allow_download,
        Need::Push => permission.allow_push,
    }
}

/// The repository names the visitor's account and lets it do what it needs.
pub open spec fn account_grants(config: AccessView, need: Need, identity: Option<Seq<char>>) -> bool {
    identity matches Some(email) && config.accounts.dom().contains(email) && permits(config.accounts[email], need)
}

/// The mode opens the repository to the holder of a token, or to everybody.
pub open spec fn mode_opens(config: AccessView, groups: Map<Seq<char>, Seq<char>>, token: Option<Seq<char>>) -> bool {
    match config.mode {
        Mode::Private => false,
        Mode::Public => true,
        Mode::Group => config.group matches Some(name) && token matches Some(t) && groups.dom().contains(name)
            && groups[name] == t,
    }
}

/// What the mode lets those do that it opens the repository to: never push.
pub open spec fn mode_permits(config: AccessView, need: Need) -> bool {
    match need {
        Need::View => config.allow_view,
        Need::Download => config.allow_download,
        Need::Push => false,
    }
}

/// The access settings let a visitor do what the visitor needs: the account may, or
/// the mode lets everybody or the holders of the group's token.
pub open spec fn allows(
    config: AccessView,
    need: Need,
    groups: Map<Seq<char>, Seq<char>>,
    token: Option<Seq<char>>,
    identity: Option<Seq<char>>,
) -> bool {
    account_grants(config, need, identity) || (mode_opens(config, groups, token) && mode_permits(config, need))
}

/// The visitor may do what the visitor needs: the administrator always may, and
/// anybody else as the access settings say.
pub open spec fn may(
    visitor: VisitorView,
    settings: SettingsView,
    config: AccessView,
    groups: Map<Seq<char>, Seq<char>>,
    need: Need,
) -> bool {
    is_admin(visitor, settings) || allows(config, need, groups, visitor.group_token, visitor.identity)
}

/// Whether an optional text is a certain text.
pub fn same_maybe(a: Option<&str>, b: &str) -> (same: bool)
    ensures
        same == (view_of(a) == Some(b@)),
{
    match a {
        Some(s) => same_text(s, b),
        None => false,
    }
}

/// The text in an optional text, borrowed.
pub fn borrowed(text: &Option<String>) -> (inner: Option<&str>)
    ensures
        view_of(inner) == maybe_text(*text),
{
    match text {
        Some(s) => Some(s.as_str()),
        None => None,
    }
}

/// Whether the access settings let a visitor do what the visitor needs.
pub fn is_allowed(
    config: &AccessConfig,
    need: Need,
    groups: &GroupStore,
    token: Option<&str>,
    identity: Option<&str>,
) -> (allowed: bool)
    ensures
        allowed == allows(config@, need, groups@, view_of(token), view_of(identity)),
{
    let account: bool = match identity {
        Some(email) => match config.accounts.get(email) {
            Some(permission) => match need {
                Need::View => permission.allow_view,
                Need::Download => permission.allow_download,
                Need::Push => permission.allow_push,
            },
            None => false,
        },
        None => false,
    };
    let open: bool = match config.mode {
        Mode::Private => false,
        Mode::Public => true,
        Mode::Group => match &config.group {
            Some(name) => match groups.groups.get(name) {
                Some(info) => same_maybe(token, &info.token),
                None => false,
            },
            None => false,
        },
    };
    let by_mode: bool = match need {
        Need::View => config.allow_view,
        Need::Download => config.allow_download,
        Need::Push => false,
    };
    account || (open && by_mode)
}

/// Whether the visitor is logged in as the administrator.
pub fn visitor_is_admin(visitor: &Visitor, settings: &Settings) -> (admin: bool)
    ensures
        admin == is_admin(visitor@, settings@),
{
    same_maybe(borrowed(&visitor.identity), &settings.admin_email)
}

/// The answer to a visitor who is not the administrator.
pub open spec fn admin_refusal(visitor: VisitorView, settings: SettingsView) -> Option<AnswerView> {
    if is_admin(visitor, settings) {
        None
    } else {
        Some(failure_view(401, "admin login required"@))
    }
}

/// Lets the administrator through and nobody else.
pub fn require_admin_session(visitor: &Visitor, settings: &Settings) -> (result: Result<(), Answer>)
    ensures
        match result {
            Ok(()) => admin_refusal(visitor@, settings@) == None::<AnswerView>,
            Err(answer) => admin_refusal(visitor@, settings@) == Some(answer@),
        },
{
    if visitor_is_admin(visitor, settings) {
        Ok(())
    } else {
        Err(failure(401, "admin login required"))
    }
}

/// Whether the visitor may do what the visitor needs.
pub fn is_allowed_for_git(
    visitor: &Visitor,
    settings: &Settings,
    config: &AccessConfig,
    groups: &GroupStore,
    need: Need,
) -> (allowed: bool)
    ensures
        allowed == may(visitor@, settings@, config@, groups@, need),
        is_admin(visitor@, settings@) ==> allowed,
{
    visitor_is_admin(visitor, settings) || is_allowed(
        config,
        need,
        groups,
        borrowed(&visitor.group_token),
        borrowed(&visitor.identity),
    )
}

/// The answer to a visitor who may not do what the visitor needs.
pub open spec fn access_refusal(
    visitor: VisitorView,
    settings: SettingsView,
    config: AccessView,
    groups: Map<Seq<char>, Seq<char>>,
    need: Need,
) -> Option<AnswerView> {
    if may(visitor, settings, config, groups, need) {
        None
    } else {
        Some(failure_view(403, "access denied"@))
    }
}

/// Lets those through who may do what they need.
pub fn check_access(
    visitor: &Visitor,
    settings: &Settings,
    config: &AccessConfig,
    groups: &GroupStore,
    need: Need,
) -> (result: Result<(), Answer>)
    ensures
        match result {
            Ok(()) => access_refusal(visitor@, settings@, config@, groups@, need) == None::<AnswerView>,
            Err(answer) => access_refusal(visitor@, settings@, config@, groups@, need) == Some(answer@),
        },
{
    if is_allowed_for_git(visitor, settings, config, groups, need) {
        Ok(())
    } else {
        Err(failure(403, "access denied"))
    }
}

/// The answer to a Git client that may not do what it needs: it is asked for
/// credentials where it sent none, since a client sends them only when asked.
pub open spec fn git_refusal(
    visitor: VisitorView,
    settings: SettingsView,
    config: AccessView,
    groups: Map<Seq<char>, Seq<char>>,
    need: Need,
    authorization: Option<Seq<char>>,
) -> Option<AnswerView> {
    if may(visitor, settings, config, groups, need) {
        None
    } else if authorization is None {
        Some(header_view(response_view(401, "authentication required"@), "WWW-Authenticate"@, "Basic realm=\"RGit\""@))
    } else {
        Some(response_view(403, "access denied"@))
    }
}

/// What to send a Git client in place of what it asks for, if it may not have it.
pub fn git_access_error(
    visitor: &Visitor,
    settings: &Settings,
    config: &AccessConfig,
    groups: &GroupStore,
    need: Need,
    authorization: Option<&str>,
) -> (refusal: Option<Answer>)
    ensures
        match refusal {
            Some(answer) => git_refusal(visitor@, settings@, config@, groups@, need, view_of(authorization)) == Some(
                answer@,
            ),
            None => git_refusal(visitor@, settings@, config@, groups@, need, view_of(authorization)) == None::<
                AnswerView,
            >,
        },
{
    if is_allowed_for_git(visitor, settings, config, groups, need) {
        None
    } else if authorization.is_none() {
        Some(with_header(response(401, "authentication required"), "WWW-Authenticate", "Basic realm=\"RGit\""))
    } else {
        Some(response(403, "access denied"))
    }
}

/// In a private repository nobody may do anything but the administrator and the
/// accounts that the repository names, and those only what they were granted.
pub proof fn law_private_is_closed(
    visitor: VisitorView,
    settings: SettingsView,
    config: AccessView,
    groups: Map<Seq<char>, Seq<char>>,
    need: Need,
)
    requires
        config.mode == Mode::Private,
    ensures
        may(visitor, settings, config, groups, need) <==> is_admin(visitor, settings) || account_grants(
            config,
            need,
            visitor.identity,
        ),
{
}

/// Nobody pushes but the administrator and accounts that may push.
pub proof fn law_push_needs_an_account(
    visitor: VisitorView,
    settings: SettingsView,
    config: AccessView,
    groups: Map<Seq<char>, Seq<char>>,
)
    ensures
        may(visitor, settings, config, groups, Need::Push) ==> is_admin(visitor, settings) || (
        visitor.identity matches Some(email) && config.accounts.dom().contains(email)
            && config.accounts[email].allow_push),
{
}

/// Granting one account something changes nothing for any other visitor.
pub proof fn law_grants_are_separate(
    visitor: VisitorView,
    settings: SettingsView,
    config: AccessView,
    groups: Map<Seq<char>, Seq<char>>,
    need: Need,
    email: Seq<char>,
    permission: AccountPermission,
)
    requires
        visitor.identity != Some(email),
    ensures
        may(
            visitor,
            settings,
            AccessView { accounts: config.accounts.insert(email, permission), ..config },
            groups,
            need,
        ) == may(visitor, settings, config, groups, need),
{
}

/// What the mode opens does not depend on the accounts that a repository names: a
/// visitor without a session is treated the same whatever they are.
pub proof fn law_mode_is_independent_of_accounts(
    visitor: VisitorView,
    settings: SettingsView,
    config: AccessView,
    accounts: Map<Seq<char>, AccountPermission>,
    groups: Map<Seq<char>, Seq<char>>,
    need: Need,
)
    requires
        visitor.identity is None,
    ensures
        may(visitor, settings, AccessView { accounts, ..config }, groups, need) == may(
            visitor,
            settings,
            config,
            groups,
            need,
        ),
{
}

/// Once a group is gone, a repository that is open to it is as closed as a private
/// one, whatever token a visitor holds.
pub proof fn law_deleted_group_closes(
    visitor: VisitorView,
    settings: SettingsView,
    config: AccessView,
    groups: Map<Seq<char>, Seq<char>>,
    name: Seq<char>,
    need: Need,
)
    requires
        config.mode == Mode::Group,
        config.group == Some(name),
    ensures
        may(visitor, settings, config, groups.remove(name), need) == may(
            visitor,
            settings,
            AccessView { mode: Mode::Private, ..config },
            groups,
            need,
        ),
{
}

/// A Git client that is refused without having sent credentials is asked for them,
/// with status 401 and a challenge; one that sent some is refused with 403.
pub proof fn law_git_client_is_challenged_once(
    visitor: VisitorView,
    settings: SettingsView,
    config: AccessView,
    groups: Map<Seq<char>, Seq<char>>,
    need: Need,
    authorization: Option<Seq<char>>,
)
    requires
        !may(visitor, settings, config, groups, need),
    ensures
        git_refusal(visitor, settings, config, groups, need, authorization) matches Some(AnswerView::Response(r)) && (
        authorization is None ==> r.status == 401 && r.headers == seq![
            ("WWW-Authenticate"@, "Basic realm=\"RGit\""@),
        ]) && (authorization is Some ==> r.status == 403 && r.headers.len() == 0),
{
}

/// Who may view: the administrator, an account that the repository lets view, and, where
/// the settings allow viewing, everybody in public mode and the holders of the group's
/// token in group mode; nobody else.
pub proof fn law_who_may_view(
    visitor: VisitorView,
    settings: SettingsView,
    config: AccessView,
    groups: Map<Seq<char>, Seq<char>>,
)
    ensures
        may(visitor, settings, config, groups, Need::View) <==> {
            ||| visitor.identity == Some(settings.admin_email)
            ||| visitor.identity matches Some(email) && config.accounts.dom().contains(email)
                && config.accounts[email].allow_view
            ||| config.mode == Mode::Public && config.allow_view
            ||| config.mode == Mode::Group && config.allow_view && visitor.group_token is Some && (
            config.group matches Some(name) && groups.dom().contains(name) && visitor.group_token == Some(groups[name]))
        },
{
}

/// Who may download: the administrator, an account that the repository lets download,
/// and, where the settings allow downloading, everybody in public mode and the holders
/// of the group's token in group mode; nobody else.
pub proof fn law_who_may_download(
    visitor: VisitorView,
    settings: SettingsView,
    config: AccessView,
    groups: Map<Seq<char>, Seq<char>>,
)
    ensures
        may(visitor, settings, config, groups, Need::Download) <==> {
            ||| visitor.identity == Some(settings.admin_email)
            ||| visitor.identity matches Some(email) && config.accounts.dom().contains(email)
                && config.accounts[email].allow_download
            ||| config.mode == Mode::Public && config.allow_download
            ||| config.mode == Mode::Group && config.allow_download && visitor.group_token is Some && (
            config.group matches Some(name) && groups.dom().contains(name) && visitor.group_token == Some(groups[name]))
        },
{
}

/// Who may push: the administrator and an account that the repository lets push; nobody
/// else, whatever the mode is.
pub proof fn law_who_may_push(
    visitor: VisitorView,
    settings: SettingsView,
    config: AccessView,
    groups: Map<Seq<char>, Seq<char>>,
)
    ensures
        may(visitor, settings, config, groups, Need::Push) <==> {
            ||| visitor.identity == Some(settings.admin_email)
            ||| visitor.identity matches Some(email) && config.accounts.dom().contains(email)
                && config.accounts[email].allow_push
        },
{
}

/// The settings alone, without the administrator, let the same visitors in: those are
/// exactly the visitors that may under an administrator who is somebody else.
pub proof fn law_settings_decide_for_others(
    visitor: VisitorView,
    settings: SettingsView,
    config: AccessView,
    groups: Map<Seq<char>, Seq<char>>,
    need: Need,
)
    requires
        visitor.identity != Some(settings.admin_email),
    ensures
        allows(config, need, groups, visitor.group_token, visitor.identity) == may(
            visitor,
            settings,
            config,
            groups,
            need,
        ),
{
}

/// The holder of a group's token may view and download what the settings allow, without
/// a session.
pub proof fn law_shared_link_works(
    settings: SettingsView,
    config: AccessView,
    groups: Map<Seq<char>, Seq<char>>,
    name: Seq<char>,
    token: Seq<char>,
    identity: Option<Seq<char>>,
)
    requires
        config.mode == Mode::Group,
        config.group == Some(name),
    ensures
        ({
            let known = groups.insert(name, token);
            let visitor = VisitorView { identity, group_token: Some(token) };
            &&& config.allow_view ==> may(visitor, settings, config, known, Need::View)
            &&& config.allow_download ==> may(visitor, settings, config, known, Need::Download)
        }),
{
}

/// A visitor is refused exactly where the visitor may not, with the words of the
/// refusal; the administrator's pages are refused to everybody else.
pub proof fn law_refusals(
    visitor: VisitorView,
    settings: SettingsView,
    config: AccessView,
    groups: Map<Seq<char>, Seq<char>>,
    need: Need,
)
    ensures
        may(visitor, settings, config, groups, need) ==> access_refusal(visitor, settings, config, groups, need) is None,
        !may(visitor, settings, config, groups, need) ==> access_refusal(visitor, settings, config, groups, need)
            == Some((AnswerView::Failure { status: 403, message: "access denied"@ })),
        visitor.identity == Some(settings.admin_email) ==> admin_refusal(visitor, settings) is None,
        visitor.identity != Some(settings.admin_email) ==> admin_refusal(visitor, settings) == Some(
            (AnswerView::Failure { status: 401, message: "admin login required"@ }),
        ),
{
}

/// A Git client is let through where it may, and gets the words of the refusal where it
/// may not.
pub proof fn law_git_clients_are_answered(
    visitor: VisitorView,
    settings: SettingsView,
    config: AccessView,
    groups: Map<Seq<char>, Seq<char>>,
    need: Need,
    authorization: Option<Seq<char>>,
)
    ensures
        may(visitor, settings, config, groups, need) ==> git_refusal(
            visitor,
            settings,
            config,
            groups,
            need,
            authorization,
        ) is None,
        !may(visitor, settings, config, groups, need) ==> (git_refusal(
            visitor,
            settings,
            config,
            groups,
            need,
            authorization,
        ) matches Some(AnswerView::Response(r)) && r.content_type is None && r.body == crate::reply::BodyView::Text(
            if authorization is None {
                "authentication required"@
            } else {
                "access denied"@
            },
        )),
{
}

/// What settings, groups, a visitor and the server's settings say is what their fields
/// hold.
pub proof fn law_settings_show_their_fields(
    config: AccessConfig,
    groups: GroupStore,
    settings: Settings,
    visitor: Visitor,
    name: Seq<char>,
)
    ensures
        config@.mode == config.mode,
        config@.allow_view == config.allow_view,
        config@.allow_download == config.allow_download,
        config@.accounts == config.accounts@,
        config@.group is Some <==> config.group is Some,
        config.group is Some ==> config@.group->0 == config.group->0@,
        groups@.dom().contains(name) <==> groups.groups@.dom().contains(name),
        groups.groups@.dom().contains(name) ==> groups@[name] == groups.groups@[name].token@,
        settings@.admin_email == settings.admin_email@,
        settings@.accounts_locked == settings.accounts_locked,
        visitor@.identity is Some <==> visitor.identity is Some,
        visitor.identity is Some ==> visitor@.identity->0 == visitor.identity->0@,
        visitor@.group_token is Some <==> visitor.group_token is Some,
        visitor.group_token is Some ==> visitor@.group_token->0 == visitor.group_token->0@,
{
}

} // verus!
