//! Groups, and the access settings of repositories.

use vstd::prelude::*;
use crate::access::{AccessConfig, AccessView, GroupInfo, GroupStore, Mode, Settings, SettingsView, Visitor,
    VisitorView, admin_refusal, is_admin, require_admin_session};
use crate::names::{bad_group_name, is_bad_group_name, repo_dir, repo_name_refusal, sanitize_repo_name};
use crate::order::{is_listing, listing};
use crate::reply::{Answer, AnswerView, Body, BodyView, Change, json_response, json_view, names_response, names_view,
    object_response, object_view, pairs, reads_fields, reads_names, response, response_view};

verus! {

/// The answer where a group cannot be created.
pub open spec fn create_group_refusal(
    visitor: VisitorView,
    settings: SettingsView,
    name: Seq<char>,
    groups: Map<Seq<char>, Seq<char>>,
) -> Option<AnswerView> {
    match admin_refusal(visitor, settings) {
        Some(answer) => Some(answer),
        None => if is_bad_group_name(name) {
            Some(response_view(400, "invalid group name"@))
        } else if groups.dom().contains(name) {
            Some(response_view(409, "group already exists"@))
        } else {
            None
        },
    }
}

/// Creates a group that a token invites into.
pub fn create_group(
    visitor: &Visitor,
    settings: &Settings,
    name: &str,
    groups: GroupStore,
    token: String,
) -> (result: Result<Change<GroupStore>, Answer>)
    ensures
        match result {
            Ok(change) => create_group_refusal(visitor@, settings@, name@, groups@) == None::<AnswerView>
                && change.record@ == groups@.insert(name@, token@) && change.done@ == object_view(
                201,
                seq![("name"@, name@), ("token"@, token@)],
            ) && reads_fields(seq![("name"@, name@), ("token"@, token@)]),
            Err(answer) => create_group_refusal(visitor@, settings@, name@, groups@) == Some(answer@),
        },
{
    match require_admin_session(visitor, settings) {
        Ok(()) => {},
        Err(answer) => {
            return Err(answer);
        },
    }
    if bad_group_name(name) {
        return Err(response(400, "invalid group name"));
    }
    if groups.groups.contains_key(name) {
        return Err(response(409, "group already exists"));
    }
    let mut record = groups;
    record.groups.insert(name.to_owned(), GroupInfo { token: token.clone() });
    assert(record@ =~= groups@.insert(name@, token@));
    let ghost shown = seq![("name"@, name@), ("token"@, token@)];
    let mut fields: Vec<(String, String)> = Vec::new();
    fields.push(("name".to_owned(), name.to_owned()));
    fields.push(("token".to_owned(), token));
    assert(pairs(fields@) =~= shown);
    proof {
        reveal_strlit("name");
        reveal_strlit("token");
        assert("name"@.len() != "token"@.len());
    }
    Ok(Change { record, done: object_response(201, &fields) })
}

/// The answer to a request for the list of groups.
pub open spec fn groups_answer(
    visitor: VisitorView,
    settings: SettingsView,
    groups: Map<Seq<char>, Seq<char>>,
) -> AnswerView {
    match admin_refusal(visitor, settings) {
        Some(answer) => answer,
        None => names_view(listing(groups.dom())),
    }
}

/// The names of the groups, in order.
pub fn list_groups(visitor: &Visitor, settings: &Settings, groups: &GroupStore) -> (answer: Answer)
    ensures
        answer@ == groups_answer(visitor@, settings@, groups@),
        is_admin(visitor@, settings@) ==> is_listing(listing(groups@.dom()), groups@.dom()) && reads_names(
            listing(groups@.dom()),
        ),
{
    assert(groups@.dom() =~= groups.groups@.dom());
    match require_admin_session(visitor, settings) {
        Ok(()) => names_response(&groups.groups.sorted_keys()),
        Err(answer) => answer,
    }
}

/// The answer where there is no group to delete.
pub open spec fn delete_group_refusal(
    visitor: VisitorView,
    settings: SettingsView,
    name: Seq<char>,
    groups: Map<Seq<char>, Seq<char>>,
) -> Option<AnswerView> {
    match admin_refusal(visitor, settings) {
        Some(answer) => Some(answer),
        None => if !groups.dom().contains(name) {
            Some(response_view(404, "group not found"@))
        } else {
            None
        },
    }
}

/// Deletes a group. The settings of repositories that are open to it stay as they
/// are.
pub fn delete_group(visitor: &Visitor, settings: &Settings, name: &str, groups: GroupStore) -> (result: Result<
    Change<GroupStore>,
    Answer,
>)
    ensures
        match result {
            Ok(change) => delete_group_refusal(visitor@, settings@, name@, groups@) == None::<AnswerView>
                && change.record@ == groups@.remove(name@) && change.done@ == response_view(200, "ok"@),
            Err(answer) => delete_group_refusal(visitor@, settings@, name@, groups@) == Some(answer@),
        },
{
    match require_admin_session(visitor, settings) {
        Ok(()) => {},
        Err(answer) => {
            return Err(answer);
        },
    }
    let mut record = groups;
    if !record.groups.remove(name) {
        return Err(response(404, "group not found"));
    }
    assert(record@ =~= groups@.remove(name@));
    Ok(Change { record, done: response(200, "ok") })
}

/// The answer where the settings of a repository cannot be looked up.
pub open spec fn settings_refusal(visitor: VisitorView, settings: SettingsView, name: Seq<char>) -> Option<AnswerView> {
    match admin_refusal(visitor, settings) {
        Some(answer) => Some(answer),
        None => repo_name_refusal(name),
    }
}

/// The directory of the repository whose settings the administrator asks for.
pub fn settings_dir(visitor: &Visitor, settings: &Settings, name: &str) -> (result: Result<String, Answer>)
    ensures
        match result {
            Ok(dir) => settings_refusal(visitor@, settings@, name@) == None::<AnswerView> && dir@ == repo_dir(name@),
            Err(answer) => settings_refusal(visitor@, settings@, name@) == Some(answer@),
        },
{
    match require_admin_session(visitor, settings) {
        Ok(()) => sanitize_repo_name(name),
        Err(answer) => Err(answer),
    }
}

/// The answer to a request for the settings of a repository.
pub open spec fn access_answer(
    visitor: VisitorView,
    settings: SettingsView,
    name: Seq<char>,
    config: Option<AccessView>,
) -> AnswerView {
    match settings_refusal(visitor, settings, name) {
        Some(answer) => answer,
        None => match config {
            Some(c) => json_view(200, BodyView::Access(c)),
            None => response_view(404, "repository not found"@),
        },
    }
}

/// The view of optional settings.
pub open spec fn maybe_config(config: Option<AccessConfig>) -> Option<AccessView> {
    match config {
        Some(c) => Some(c@),
        None => None,
    }
}

/// The settings of a repository; `config` is nothing where there is no such
/// repository.
pub fn get_access(visitor: &Visitor, settings: &Settings, name: &str, config: Option<AccessConfig>) -> (answer: Answer)
    ensures
        answer@ == access_answer(visitor@, settings@, name@, maybe_config(config)),
{
    match settings_dir(visitor, settings, name) {
        Ok(_dir) => match config {
            Some(c) => json_response(200, Body::Access(c)),
            None => response(404, "repository not found"),
        },
        Err(answer) => answer,
    }
}

/// The answer where settings cannot be written: there is no such repository, or they
/// open it to no group or to a group that does not exist.
pub open spec fn set_access_refusal(
    visitor: VisitorView,
    settings: SettingsView,
    name: Seq<char>,
    exists: bool,
    config: AccessView,
    groups: Map<Seq<char>, Seq<char>>,
) -> Option<AnswerView> {
    match settings_refusal(visitor, settings, name) {
        Some(answer) => Some(answer),
        None => if !exists {
            Some(response_view(404, "repository not found"@))
        } else if config.mode != Mode::Group {
            None
        } else {
            match config.group {
                None => Some(response_view(400, "group name required for group mode"@)),
                Some(group) => if groups.dom().contains(group) {
                    None
                } else {
                    Some(response_view(400, "unknown group"@))
                },
            }
        },
    }
}

/// Takes new settings for a repository.
pub fn set_access(
    visitor: &Visitor,
    settings: &Settings,
    name: &str,
    exists: bool,
    config: AccessConfig,
    groups: &GroupStore,
) -> (result: Result<Change<AccessConfig>, Answer>)
    ensures
        match result {
            Ok(change) => set_access_refusal(visitor@, settings@, name@, exists, config@, groups@) == None::<AnswerView>
                && change.record@ == config@ && change.done@ == response_view(200, "ok"@),
            Err(answer) => set_access_refusal(visitor@, settings@, name@, exists, config@, groups@) == Some(answer@),
        },
{
    match settings_dir(visitor, settings, name) {
        Ok(_dir) => {},
        Err(answer) => {
            return Err(answer);
        },
    }
    if !exists {
        return Err(response(404, "repository not found"));
    }
    if config.mode == Mode::Group {
        match &config.group {
            None => {
                return Err(response(400, "group name required for group mode"));
            },
            Some(group) => {
                if !groups.groups.contains_key(group) {
                    return Err(response(400, "unknown group"));
                }
            },
        }
    }
    Ok(Change { record: config, done: response(200, "ok") })
}

/// The list of groups says nothing of their tokens: it is the same whatever they are.
pub proof fn law_listing_keeps_tokens_secret(
    visitor: VisitorView,
    settings: SettingsView,
    groups: Map<Seq<char>, Seq<char>>,
    others: Map<Seq<char>, Seq<char>>,
)
    requires
        groups.dom() == others.dom(),
    ensures
        groups_answer(visitor, settings, groups) == groups_answer(visitor, settings, others),
{
}

/// Settings that are written never open a repository to a group that does not exist.
pub proof fn law_settings_name_a_known_group(
    visitor: VisitorView,
    settings: SettingsView,
    name: Seq<char>,
    exists: bool,
    config: AccessView,
    groups: Map<Seq<char>, Seq<char>>,
)
    requires
        set_access_refusal(visitor, settings, name, exists, config, groups) is None,
        config.mode == Mode::Group,
    ensures
        config.group matches Some(group) && groups.dom().contains(group),
{
}

/// A new group's token, and no other token, opens the repositories that are open to
/// the group.
pub proof fn law_token_opens_its_group(
    config: AccessView,
    groups: Map<Seq<char>, Seq<char>>,
    name: Seq<char>,
    token: Seq<char>,
    shown: Option<Seq<char>>,
)
    requires
        config.mode == Mode::Group,
        config.group == Some(name),
    ensures
        crate::access::mode_opens(config, groups.insert(name, token), shown) <==> shown == Some(token),
{
}

/// A group is created where the administrator asks for it, under a good name that no
/// group has; what stands against it first is what the answer says.
pub proof fn law_which_groups_are_created(
    visitor: VisitorView,
    settings: SettingsView,
    name: Seq<char>,
    groups: Map<Seq<char>, Seq<char>>,
)
    ensures
        create_group_refusal(visitor, settings, name, groups) is None <==> visitor.identity == Some(settings.admin_email)
            && !is_bad_group_name(name) && !groups.dom().contains(name),
        visitor.identity != Some(settings.admin_email) ==> create_group_refusal(visitor, settings, name, groups) == Some(
            (AnswerView::Failure { status: 401, message: "admin login required"@ }),
        ),
        visitor.identity == Some(settings.admin_email) && is_bad_group_name(name) ==> (create_group_refusal(
            visitor,
            settings,
            name,
            groups,
        ) matches Some(answer) && crate::reply::says(answer, 400, "invalid group name"@)),
        visitor.identity == Some(settings.admin_email) && !is_bad_group_name(name) && groups.dom().contains(name) ==> (
        create_group_refusal(visitor, settings, name, groups) matches Some(answer) && crate::reply::says(
            answer,
            409,
            "group already exists"@,
        )),
{
}

/// A group is deleted where the administrator asks for it and it exists.
pub proof fn law_which_groups_are_deleted(
    visitor: VisitorView,
    settings: SettingsView,
    name: Seq<char>,
    groups: Map<Seq<char>, Seq<char>>,
)
    ensures
        delete_group_refusal(visitor, settings, name, groups) is None <==> visitor.identity == Some(settings.admin_email)
            && groups.dom().contains(name),
        visitor.identity != Some(settings.admin_email) ==> delete_group_refusal(visitor, settings, name, groups) == Some(
            (AnswerView::Failure { status: 401, message: "admin login required"@ }),
        ),
        visitor.identity == Some(settings.admin_email) && !groups.dom().contains(name) ==> (delete_group_refusal(
            visitor,
            settings,
            name,
            groups,
        ) matches Some(answer) && crate::reply::says(answer, 404, "group not found"@)),
{
}

/// The list of groups is given to the administrator, whole, and to nobody else.
pub proof fn law_groups_are_listed(
    visitor: VisitorView,
    settings: SettingsView,
    groups: Map<Seq<char>, Seq<char>>,
    list: Seq<Seq<char>>,
)
    requires
        is_listing(list, groups.dom()),
    ensures
        visitor.identity == Some(settings.admin_email) ==> (groups_answer(visitor, settings, groups) matches
            AnswerView::Response(r) && r.status == 200 && r.body == BodyView::Bytes(crate::outside::json_array(list))),
        visitor.identity != Some(settings.admin_email) ==> groups_answer(visitor, settings, groups) == (
        AnswerView::Failure { status: 401, message: "admin login required"@ }),
{
    crate::order::lemma_listing(list, groups.dom());
}

/// The settings of a repository are shown to the administrator as they are, and the
/// administrator is told where there is no such repository.
pub proof fn law_settings_are_shown(visitor: VisitorView, settings: SettingsView, name: Seq<char>, config: AccessView)
    ensures
        visitor.identity != Some(settings.admin_email) ==> settings_refusal(visitor, settings, name) == Some(
            (AnswerView::Failure { status: 401, message: "admin login required"@ }),
        ),
        visitor.identity == Some(settings.admin_email) ==> settings_refusal(visitor, settings, name) == repo_name_refusal(
            name,
        ),
        settings_refusal(visitor, settings, name) matches Some(answer) ==> access_answer(
            visitor,
            settings,
            name,
            Some(config),
        ) == answer,
        settings_refusal(visitor, settings, name) is None ==> (access_answer(visitor, settings, name, Some(config)) matches
            AnswerView::Response(r) && r.status == 200 && r.content_type == Some("application/json"@)
            && r.headers.len() == 0 && r.body == BodyView::Access(config)),
        settings_refusal(visitor, settings, name) is None ==> crate::reply::says(
            access_answer(visitor, settings, name, None),
            404,
            "repository not found"@,
        ),
{
}

/// Settings are accepted for a repository that exists, unless they open it to no group
/// or to a group that does not exist.
pub proof fn law_which_settings_are_accepted(
    visitor: VisitorView,
    settings: SettingsView,
    name: Seq<char>,
    exists: bool,
    config: AccessView,
    groups: Map<Seq<char>, Seq<char>>,
)
    requires
        settings_refusal(visitor, settings, name) is None,
    ensures
        set_access_refusal(visitor, settings, name, exists, config, groups) is None <==> exists && (config.mode
            == Mode::Group ==> (config.group matches Some(group) && groups.dom().contains(group))),
        !exists ==> (set_access_refusal(visitor, settings, name, exists, config, groups) matches Some(answer)
            && crate::reply::says(answer, 404, "repository not found"@)),
        exists && config.mode == Mode::Group && config.group is None ==> (set_access_refusal(
            visitor,
            settings,
            name,
            exists,
            config,
            groups,
        ) matches Some(answer) && crate::reply::says(answer, 400, "group name required for group mode"@)),
        exists && config.mode == Mode::Group && config.group is Some && !groups.dom().contains(config.group->0) ==> (
        set_access_refusal(visitor, settings, name, exists, config, groups) matches Some(answer)
            && crate::reply::says(answer, 400, "unknown group"@)),
{
}

/// Whoever may not see the settings of a repository cannot set them.
pub proof fn law_settings_are_set_by_those_who_see_them(
    visitor: VisitorView,
    settings: SettingsView,
    name: Seq<char>,
    exists: bool,
    config: AccessView,
    groups: Map<Seq<char>, Seq<char>>,
)
    requires
        settings_refusal(visitor, settings, name) is Some,
    ensures
        set_access_refusal(visitor, settings, name, exists, config, groups) == settings_refusal(visitor, settings, name),
{
}

/// Optional settings are there exactly where the settings are.
pub proof fn law_optional_settings(config: Option<AccessConfig>)
    ensures
        match config {
            Some(c) => maybe_config(config) == Some(c@),
            None => maybe_config(config) is None,
        },
{
}

} // verus!
