//! The names that requests bring: of repositories, files, groups and accounts.

use vstd::prelude::*;
use crate::credentials::{find_query_value, query_value};
use crate::outside::texts;
use crate::percent::{url_decoded, urlencoding_decode};
use crate::reply::{Answer, AnswerView, failure, failure_view};
use crate::text::{after_prefix, contains_char, contains_text, ends_with, occurs_at, occurs_in, same_text, split,
    split_by, strip_prefix};

verus! {

/// A name that cannot be the name of a repository: an empty one, or one that could
/// lead out of the directory of the repositories.
pub open spec fn is_bad_repo_name(name: Seq<char>) -> bool {
    name.len() == 0 || occurs_in(name, ".."@) || name.contains('/') || name.contains('\\')
}

/// The directory of the repository with a name: the name, with `.git` at the end.
pub open spec fn repo_dir(name: Seq<char>) -> Seq<char> {
    if ".git"@.is_suffix_of(name) {
        name
    } else {
        name + ".git"@
    }
}

/// The answer to a name that cannot be the name of a repository.
pub open spec fn repo_name_refusal(name: Seq<char>) -> Option<AnswerView> {
    if is_bad_repo_name(name) {
        Some(failure_view(400, "invalid repository name"@))
    } else {
        None
    }
}

/// The directory of the repository with a name.
pub fn sanitize_repo_name(name: &str) -> (result: Result<String, Answer>)
    ensures
        match result {
            Ok(dir) => repo_name_refusal(name@) == None::<AnswerView> && dir@ == repo_dir(name@),
            Err(answer) => repo_name_refusal(name@) == Some(answer@),
        },
{
    if name.is_empty() || contains_text(name, "..") || contains_char(name, '/') || contains_char(name, '\\') {
        return Err(failure(400, "invalid repository name"));
    }
    if ends_with(name, ".git") {
        Ok(name.to_owned())
    } else {
        Ok(name.to_owned().concat(".git"))
    }
}

/// A path in a tree that could lead out of it.
pub open spec fn leads_out(path: Seq<char>) -> bool {
    split_by(path, "/"@).contains(".."@)
}

/// The answer to a path that could lead out of its tree.
pub open spec fn tree_path_refusal(path: Seq<char>) -> Option<AnswerView> {
    if leads_out(path) {
        Some(failure_view(400, "invalid path"@))
    } else {
        None
    }
}

/// Lets a path through that stays in its tree.
pub fn sanitize_tree_path(path: &str) -> (result: Result<(), Answer>)
    ensures
        match result {
            Ok(()) => tree_path_refusal(path@) == None::<AnswerView>,
            Err(answer) => tree_path_refusal(path@) == Some(answer@),
        },
{
    proof {
        reveal_strlit("/");
    }
    let segments = split(path, "/");
    let ghost all = texts(segments@);
    let mut i: usize = 0;
    while i < segments.len()
        invariant
            i <= segments@.len(),
            all == texts(segments@),
            all == split_by(path@, "/"@),
            forall|j: int| 0 <= j < i ==> all[j] != ".."@,
        decreases segments@.len() - i,
    {
        assert(all[i as int] == segments@[i as int]@);
        if same_text(&segments[i], "..") {
            return Err(failure(400, "invalid path"));
        }
        i += 1;
    }
    Ok(())
}

/// The path of the file that a decoded path names, or the answer to a path that
/// names none.
pub open spec fn file_path_refusal(path: Seq<char>) -> Option<AnswerView> {
    if leads_out(path) {
        Some(failure_view(400, "invalid path"@))
    } else if path.len() == 0 {
        Some(failure_view(400, "file path required"@))
    } else {
        None
    }
}

/// Lets a path through that stays in its tree and is not empty.
pub fn check_file_path(path: &str) -> (result: Result<(), Answer>)
    ensures
        match result {
            Ok(()) => file_path_refusal(path@) == None::<AnswerView>,
            Err(answer) => file_path_refusal(path@) == Some(answer@),
        },
{
    match sanitize_tree_path(path) {
        Ok(()) => {},
        Err(answer) => {
            return Err(answer);
        },
    }
    if path.is_empty() {
        return Err(failure(400, "file path required"));
    }
    Ok(())
}

/// The start of the URL path of every file of a repository.
pub open spec fn raw_prefix(name: Seq<char>) -> Seq<char> {
    "/api/repos/"@ + name + "/raw/"@
}

/// The file that the URL path of a raw download names, or why it names none.
pub open spec fn raw_path(name: Seq<char>, url_path: Seq<char>) -> Result<Seq<char>, AnswerView> {
    match after_prefix(url_path, raw_prefix(name)) {
        Some(rest) => match file_path_refusal(url_decoded(rest)) {
            Some(answer) => Err(answer),
            None => Ok(url_decoded(rest)),
        },
        None => Err(failure_view(400, "invalid path"@)),
    }
}

/// The file that the URL path of a raw download names.
pub fn raw_file_path(name: &str, url_path: &str) -> (result: Result<String, Answer>)
    ensures
        match result {
            Ok(path) => raw_path(name@, url_path@) == Ok::<Seq<char>, AnswerView>(path@),
            Err(answer) => raw_path(name@, url_path@) == Err::<Seq<char>, AnswerView>(answer@),
        },
{
    let prefix = "/api/repos/".to_owned().concat(name).concat("/raw/");
    match strip_prefix(url_path, &prefix) {
        Some(rest) => {
            let path = urlencoding_decode(&rest);
            match check_file_path(&path) {
                Ok(()) => Ok(path),
                Err(answer) => Err(answer),
            }
        },
        None => Err(failure(400, "invalid path")),
    }
}

/// The first path that could lead out of its tree decides.
pub open spec fn paths_refusal(paths: Seq<Seq<char>>) -> Option<AnswerView> {
    if exists|i: int| 0 <= i < paths.len() && leads_out(#[trigger] paths[i]) {
        Some(failure_view(400, "invalid path"@))
    } else {
        None
    }
}

/// Lets paths through that all stay in their tree.
pub fn check_paths(paths: &Vec<String>) -> (result: Result<(), Answer>)
    ensures
        match result {
            Ok(()) => paths_refusal(texts(paths@)) == None::<AnswerView>,
            Err(answer) => paths_refusal(texts(paths@)) == Some(answer@),
        },
{
    let ghost all = texts(paths@);
    let mut i: usize = 0;
    while i < paths.len()
        invariant
            i <= paths@.len(),
            all == texts(paths@),
            forall|j: int| 0 <= j < i ==> !leads_out(#[trigger] all[j]),
        decreases paths@.len() - i,
    {
        assert(all[i as int] == paths@[i as int]@);
        match sanitize_tree_path(&paths[i]) {
            Ok(()) => {},
            Err(answer) => {
                assert(leads_out(all[i as int]));
                return Err(answer);
            },
        }
        i += 1;
    }
    Ok(())
}

/// The paths that the query of an archive download asks for: the decoded parameter
/// `paths`, split at its commas; none where there is no such parameter.
pub open spec fn asked_paths(query: Option<Seq<char>>) -> Seq<Seq<char>> {
    let text = match query {
        Some(q) => q,
        None => ""@,
    };
    match query_value(text, "paths="@) {
        Some(value) => split_by(url_decoded(value), ","@),
        None => Seq::empty(),
    }
}

/// The paths that the query of an archive download asks for.
pub fn archive_paths(query: Option<&str>) -> (paths: Vec<String>)
    ensures
        texts(paths@) == asked_paths(crate::text::view_of(query)),
{
    let text = match query {
        Some(q) => q,
        None => "",
    };
    match find_query_value(text, "paths=") {
        Some(value) => {
            proof {
                reveal_strlit(",");
            }
            split(&urlencoding_decode(&value), ",")
        },
        None => {
            let paths: Vec<String> = Vec::new();
            assert(texts(paths@) =~= Seq::<Seq<char>>::empty());
            paths
        },
    }
}

/// A name that cannot be the name of a group.
pub open spec fn is_bad_group_name(name: Seq<char>) -> bool {
    name.len() == 0 || name.contains('/') || name.contains('\\') || name.contains('.')
}

/// Whether a name cannot be the name of a group.
pub fn bad_group_name(name: &str) -> (bad: bool)
    ensures
        bad == is_bad_group_name(name@),
{
    name.is_empty() || contains_char(name, '/') || contains_char(name, '\\') || contains_char(name, '.')
}

/// The directory of a repository is one path segment that ends in `.git`: it neither
/// leaves the directory of the repositories nor is that directory.
pub proof fn law_repo_dir_stays_inside(name: Seq<char>)
    requires
        repo_name_refusal(name) is None,
    ensures
        ".git"@.is_suffix_of(repo_dir(name)),
        !repo_dir(name).contains('/'),
        !repo_dir(name).contains('\\'),
        repo_dir(name) != ".."@,
        repo_dir(name) != "."@,
{
    reveal_strlit(".git");
    reveal_strlit("..");
    reveal_strlit(".");
    let dir = repo_dir(name);
    assert(".git"@.is_suffix_of(dir)) by {
        if !".git"@.is_suffix_of(name) {
            assert(dir.subrange(dir.len() - ".git"@.len(), dir.len() as int) =~= ".git"@);
        }
    }
    assert forall|i: int| 0 <= i < dir.len() implies dir[i] != '/' && dir[i] != '\\' by {
        if i < name.len() {
            assert(dir[i] == name[i]);
            assert(name.contains(name[i]));
        } else {
            assert(dir[i] == ".git"@[i - name.len()]);
        }
    }
    assert(dir.len() >= 4);
}

/// A name with `.git` at its end and the same name without it are the same
/// repository, and the directory of a repository is a name of it. A name that ends
/// in a dot is the exception: with `.git` at its end it would hold two dots in a row.
pub proof fn law_suffix_is_optional(name: Seq<char>)
    requires
        repo_name_refusal(name) is None,
        name.last() != '.',
    ensures
        repo_name_refusal(repo_dir(name)) is None,
        repo_dir(repo_dir(name)) == repo_dir(name),
{
    reveal_strlit(".git");
    reveal_strlit("..");
    law_repo_dir_stays_inside(name);
    let dir = repo_dir(name);
    let dots = ".."@;
    assert(!occurs_in(dir, dots)) by {
        if occurs_in(dir, dots) {
            let i = choose|i: int| occurs_at(dir, dots, i);
            assert(dir.subrange(i, i + dots.len())[0] == '.');
            assert(dir.subrange(i, i + dots.len())[1] == '.');
            assert(dir[i] == '.' && dir[i + 1] == '.');
            if i + 2 <= name.len() {
                assert(name.subrange(i, i + 2) =~= dots);
                assert(occurs_at(name, dots, i));
            } else if i + 1 == name.len() {
                assert(name.last() == dir[i]);
            } else {
                assert(dir[i + 1] == ".git"@[i + 1 - name.len()]);
            }
        }
    }
}

/// A raw download reads a file of its tree and nothing outside it.
pub proof fn law_raw_path_stays_inside(name: Seq<char>, url_path: Seq<char>, path: Seq<char>)
    requires
        raw_path(name, url_path) == Ok::<Seq<char>, AnswerView>(path),
    ensures
        !leads_out(path),
        path.len() > 0,
{
}

/// Two characters in a row.
proof fn lemma_two_dots(name: Seq<char>)
    ensures
        occurs_in(name, ".."@) <==> exists|i: int| 0 <= i < name.len() - 1 && #[trigger] name[i] == '.' && name[i + 1]
            == '.',
{
    reveal_strlit("..");
    let dots = ".."@;
    if occurs_in(name, dots) {
        let i = choose|i: int| occurs_at(name, dots, i);
        assert(name.subrange(i, i + 2)[0] == '.' && name.subrange(i, i + 2)[1] == '.');
        assert(name[i] == '.' && name[i + 1] == '.');
    }
    if exists|i: int| 0 <= i < name.len() - 1 && #[trigger] name[i] == '.' && name[i + 1] == '.' {
        let i = choose|i: int| 0 <= i < name.len() - 1 && #[trigger] name[i] == '.' && name[i + 1] == '.';
        assert(name.subrange(i, i + 2) =~= dots);
        assert(occurs_at(name, dots, i));
    }
}

/// A name is accepted for a repository if and only if it is not empty and holds no two
/// dots in a row, no slash and no backslash; every other name gets the same refusal.
pub proof fn law_good_names_are_accepted(name: Seq<char>)
    ensures
        repo_name_refusal(name) is None <==> {
            &&& name.len() > 0
            &&& forall|i: int| 0 <= i < name.len() ==> #[trigger] name[i] != '/' && name[i] != '\\'
            &&& forall|i: int| 0 <= i < name.len() - 1 ==> !(#[trigger] name[i] == '.' && name[i + 1] == '.')
        },
        repo_name_refusal(name) is Some ==> repo_name_refusal(name) == Some(
            (AnswerView::Failure { status: 400, message: "invalid repository name"@ }),
        ),
{
    lemma_two_dots(name);
}

/// The directory of a repository is its name with `.git` behind it, or the name itself
/// where it ends so.
pub proof fn law_directory_of_a_name(name: Seq<char>, stem: Seq<char>)
    ensures
        repo_dir(stem + seq!['.', 'g', 'i', 't']) == stem + seq!['.', 'g', 'i', 't'],
        !(name.len() >= 4 && name[name.len() - 4] == '.' && name[name.len() - 3] == 'g' && name[name.len() - 2] == 'i'
            && name[name.len() - 1] == 't') ==> repo_dir(name) == name + seq!['.', 'g', 'i', 't'],
{
    reveal_strlit(".git");
    let suffix = seq!['.', 'g', 'i', 't'];
    assert(".git"@ =~= suffix);
    let whole = stem + suffix;
    assert(whole.subrange(whole.len() - suffix.len(), whole.len() as int) =~= suffix);
    if suffix.is_suffix_of(name) {
        let n = name.len() as int;
        let tail = name.subrange(n - 4, n);
        assert(tail[0] == '.' && tail[1] == 'g' && tail[2] == 'i' && tail[3] == 't');
        assert(name[n - 4] == tail[0] && name[n - 3] == tail[1] && name[n - 2] == tail[2] && name[n - 1] == tail[3]);
    }
}

/// A path leads out of its tree exactly where one of its segments, between slashes, is
/// two dots.
pub proof fn law_paths_that_lead_out(segment: Seq<char>, rest: Seq<char>)
    requires
        !segment.contains('/'),
    ensures
        leads_out(segment) <==> segment == seq!['.', '.'],
        leads_out(segment + seq!['/'] + rest) <==> segment == seq!['.', '.'] || leads_out(rest),
{
    reveal_strlit("/");
    reveal_strlit("..");
    let slash = "/"@;
    assert(slash =~= seq!['/']);
    assert(".."@ =~= seq!['.', '.']);
    crate::text::law_split_at_the_first(segment, slash, rest);
    let one = seq![segment];
    assert(one[0] == segment);
    let after = split_by(rest, slash);
    let all = one + after;
    assert(all[0] == segment);
    if after.contains(".."@) {
        let k = choose|k: int| 0 <= k < after.len() && after[k] == ".."@;
        assert(all[k + 1] == ".."@);
    }
    if all.contains(".."@) && segment != ".."@ {
        let k = choose|k: int| 0 <= k < all.len() && all[k] == ".."@;
        assert(after[k - 1] == ".."@);
    }
}

/// A path in a tree is accepted if and only if it does not lead out; a file also needs a
/// path that is not empty; and a list of paths is accepted if and only if every path is.
pub proof fn law_paths_are_accepted(path: Seq<char>, paths: Seq<Seq<char>>, i: int)
    ensures
        tree_path_refusal(path) is None <==> !leads_out(path),
        file_path_refusal(path) is None <==> !leads_out(path) && path.len() > 0,
        leads_out(path) ==> tree_path_refusal(path) == Some(
            (AnswerView::Failure { status: 400, message: "invalid path"@ }),
        ),
        leads_out(path) ==> file_path_refusal(path) == tree_path_refusal(path),
        !leads_out(path) && path.len() == 0 ==> file_path_refusal(path) == Some(
            (AnswerView::Failure { status: 400, message: "file path required"@ }),
        ),
        (forall|k: int| 0 <= k < paths.len() ==> !leads_out(#[trigger] paths[k])) ==> paths_refusal(paths) is None,
        0 <= i < paths.len() && leads_out(paths[i]) ==> paths_refusal(paths) == Some(
            (AnswerView::Failure { status: 400, message: "invalid path"@ }),
        ),
{
}

/// A raw download is about the file whose decoded path follows `/api/repos/`, the name
/// and `/raw/`, and about no file for any other path.
pub proof fn law_raw_download_names_its_file(name: Seq<char>, rest: Seq<char>, other: Seq<char>)
    ensures
        url_decoded(rest).len() > 0 && !leads_out(url_decoded(rest)) ==> raw_path(
            name,
            "/api/repos/"@ + name + "/raw/"@ + rest,
        ) == Ok::<Seq<char>, AnswerView>(url_decoded(rest)),
        url_decoded(rest).len() == 0 || leads_out(url_decoded(rest)) ==> raw_path(
            name,
            "/api/repos/"@ + name + "/raw/"@ + rest,
        ) is Err,
        (forall|r: Seq<char>| other != #[trigger] ("/api/repos/"@ + name + "/raw/"@ + r)) ==> raw_path(name, other) == Err::<
            Seq<char>,
            AnswerView,
        >((AnswerView::Failure { status: 400, message: "invalid path"@ })),
{
    let prefix = "/api/repos/"@ + name + "/raw/"@;
    crate::text::law_prefix_is_taken_off(prefix, rest, other);
    match after_prefix(other, prefix) {
        Some(r) => {
            assert(other == "/api/repos/"@ + name + "/raw/"@ + r);
        },
        None => {},
    }
}

/// The paths of an archive are the decoded parameter `paths` of the query, split at its
/// commas: they hold no comma, and with commas between them they are that text. Without
/// the parameter there are none.
pub proof fn law_archive_paths(value: Seq<char>, other: Seq<char>, rest: Seq<char>, k: int)
    requires
        !value.contains('&'),
        !other.contains('&'),
        forall|v: Seq<char>| other != #[trigger] ("paths="@ + v),
    ensures
        crate::text::joined_by(asked_paths(Some("paths="@ + value)), seq![',']) == url_decoded(value),
        asked_paths(Some("paths="@ + value)).len() > 0,
        0 <= k < asked_paths(Some("paths="@ + value)).len() ==> !asked_paths(Some("paths="@ + value))[k].contains(','),
        asked_paths(Some("paths="@ + value + seq!['&'] + rest)) == asked_paths(Some("paths="@ + value)),
        asked_paths(Some(other)).len() == 0,
        asked_paths(Some(other + seq!['&'] + rest)) == asked_paths(Some(rest)),
        asked_paths(None).len() == 0,
{
    reveal_strlit("paths=");
    reveal_strlit(",");
    reveal_strlit("");
    crate::credentials::law_query_parameters("paths="@, value, other, rest);
    let comma = ","@;
    assert(comma =~= seq![',']);
    let text = url_decoded(value);
    crate::text::law_split_then_join(text, comma);
    let paths = split_by(text, comma);
    if 0 <= k < paths.len() {
        crate::text::law_parts_hold_no_separator(text, comma, k);
        if paths[k].contains(',') {
            let i = choose|i: int| 0 <= i < paths[k].len() && paths[k][i] == ',';
            assert(paths[k].subrange(i, i + 1) =~= comma);
            assert(occurs_at(paths[k], comma, i));
        }
    }
    let blank = Seq::<char>::empty();
    assert(""@ =~= blank);
    assert forall|v: Seq<char>| blank != #[trigger] ("paths="@ + v) by {
        assert(("paths="@ + v).len() > 0);
    }
    crate::credentials::law_query_parameters("paths="@, value, blank, rest);
}

/// A name is accepted for a group if and only if it is not empty and holds no slash, no
/// backslash and no dot.
pub proof fn law_group_names(name: Seq<char>)
    ensures
        !is_bad_group_name(name) <==> name.len() > 0 && (forall|i: int|
            0 <= i < name.len() ==> #[trigger] name[i] != '/' && name[i] != '\\' && name[i] != '.'),
{
}

} // verus!
