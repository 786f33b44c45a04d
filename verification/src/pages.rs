//! What the pages in the browser show.
//!
//! The pages read JSON with `serde_json`, the crate that the server writes it with.

use vstd::prelude::*;
use crate::outside::{JsonOutline, OutlineView, json_outline, maybe_text, read_json, render_markdown, rendered_markdown,
    text_under, texts};
use crate::reply::pairs;
use crate::text::{decimal, decimal_of, same_text, view_of};

verus! {

/// The texts among the items of a list, in order.
pub open spec fn texts_among(items: Seq<Option<Seq<char>>>) -> Seq<Seq<char>>
    decreases items.len(),
{
    if items.len() == 0 {
        Seq::empty()
    } else {
        match items.last() {
            Some(text) => texts_among(items.drop_last()).push(text),
            None => texts_among(items.drop_last()),
        }
    }
}

/// The strings of a document that is a list; none of any other document.
pub open spec fn strings_in(outline: Option<OutlineView>) -> Seq<Seq<char>> {
    match outline {
        Some(OutlineView::List(items)) => texts_among(items),
        _ => Seq::empty(),
    }
}

/// The view of an optional document.
pub open spec fn maybe_outline(outline: Option<JsonOutline>) -> Option<OutlineView> {
    match outline {
        Some(o) => Some(o@),
        None => None,
    }
}

/// A list of texts only is all texts.
pub proof fn lemma_all_texts(list: Seq<Seq<char>>)
    ensures
        texts_among(list.map_values(|t: Seq<char>| Some(t))) == list,
    decreases list.len(),
{
    let items = list.map_values(|t: Seq<char>| Some(t));
    if list.len() > 0 {
        lemma_all_texts(list.drop_last());
        assert(items.drop_last() =~= list.drop_last().map_values(|t: Seq<char>| Some(t)));
        assert(list.drop_last().push(list.last()) =~= list);
    } else {
        assert(list =~= Seq::<Seq<char>>::empty());
    }
}

/// The strings of a document that is a list.
pub fn list_strings(outline: &Option<JsonOutline>) -> (list: Vec<String>)
    ensures
        texts(list@) == strings_in(maybe_outline(*outline)),
{
    let mut list: Vec<String> = Vec::new();
    assert(texts(list@) =~= Seq::<Seq<char>>::empty());
    match outline {
        Some(JsonOutline::List(items)) => {
            let ghost all = items@.map_values(|item: Option<String>| maybe_text(item));
            let mut i: usize = 0;
            assert(all.take(0) =~= Seq::<Option<Seq<char>>>::empty());
            while i < items.len()
                invariant
                    i <= items@.len(),
                    all == items@.map_values(|item: Option<String>| maybe_text(item)),
                    texts(list@) == texts_among(all.take(i as int)),
                decreases items@.len() - i,
            {
                let ghost seen = all.take(i + 1);
                assert(seen.drop_last() =~= all.take(i as int));
                assert(seen.last() == maybe_text(items@[i as int]));
                match &items[i] {
                    Some(text) => {
                        let ghost before = list@;
                        list.push(text.clone());
                        assert(texts(list@) =~= texts(before).push(text@));
                    },
                    None => {},
                }
                i += 1;
            }
            assert(all.take(i as int) =~= all);
        },
        _ => {},
    }
    list
}

/// The strings of the JSON array in a text.
pub fn parse_string_array(text: &str) -> (list: Vec<String>)
    ensures
        texts(list@) == strings_in(json_outline(text@)),
{
    list_strings(&read_json(text))
}

/// The branch and the content that a document gives: two texts of an object.
pub open spec fn branch_and_content(outline: Option<OutlineView>) -> Option<(Seq<char>, Seq<char>)> {
    match outline {
        Some(OutlineView::Object(fields)) => match (text_under(fields, "branch"@), text_under(fields, "content"@)) {
            (Some(branch), Some(content)) => Some((branch, content)),
            _ => None,
        },
        _ => None,
    }
}

/// The view of an optional pair of texts.
pub open spec fn maybe_pair(pair: Option<(String, String)>) -> Option<(Seq<char>, Seq<char>)> {
    match pair {
        Some((a, b)) => Some((a@, b@)),
        None => None,
    }
}

/// The text under a key among the fields of an object.
fn find_text(fields: &Vec<(String, Option<String>)>, key: &str) -> (text: Option<String>)
    ensures
        maybe_text(text) == text_under(
            fields@.map_values(|field: (String, Option<String>)| (field.0@, maybe_text(field.1))),
            key@,
        ),
{
    let ghost all = fields@.map_values(|field: (String, Option<String>)| (field.0@, maybe_text(field.1)));
    let mut i: usize = 0;
    assert(all.skip(0) =~= all);
    while i < fields.len()
        invariant
            i <= fields@.len(),
            all == fields@.map_values(|field: (String, Option<String>)| (field.0@, maybe_text(field.1))),
            text_under(all.skip(i as int), key@) == text_under(all, key@),
        decreases fields@.len() - i,
    {
        let ghost rest = all.skip(i as int);
        assert(rest[0] == (fields@[i as int].0@, maybe_text(fields@[i as int].1)));
        assert(rest.skip(1) =~= all.skip(i + 1));
        if same_text(&fields[i].0, key) {
            return match &fields[i].1 {
                Some(text) => Some(text.clone()),
                None => None,
            };
        }
        i += 1;
    }
    assert(all.skip(i as int).len() == 0);
    None
}

/// The branch and the content that a document gives.
pub fn outline_fields(outline: &Option<JsonOutline>) -> (fields: Option<(String, String)>)
    ensures
        maybe_pair(fields) == branch_and_content(maybe_outline(*outline)),
{
    match outline {
        Some(JsonOutline::Object(fields)) => match (find_text(fields, "branch"), find_text(fields, "content")) {
            (Some(branch), Some(content)) => Some((branch, content)),
            _ => None,
        },
        _ => None,
    }
}

/// The branch and the content of a README that the JSON object in a text gives.
pub fn parse_readme_fields(text: &str) -> (fields: Option<(String, String)>)
    ensures
        maybe_pair(fields) == branch_and_content(json_outline(text@)),
{
    outline_fields(&read_json(text))
}

/// The branch and the content of a wiki page that the JSON object in a text gives.
pub fn parse_page_fields(text: &str) -> (fields: Option<(String, String)>)
    ensures
        maybe_pair(fields) == branch_and_content(json_outline(text@)),
{
    outline_fields(&read_json(text))
}

/// The HTML of a Markdown text.
pub fn markdown_to_html(src: &str) -> (html: String)
    ensures
        html@ == rendered_markdown(src@),
{
    render_markdown(src)
}

/// The URL that the README of a repository is fetched from.
pub fn readme_url(repo: &str) -> (url: String)
    ensures
        url@ == "/api/repos/"@ + repo@ + "/readme"@,
{
    "/api/repos/".to_owned().concat(repo).concat("/readme")
}

/// The status line while a README is fetched.
pub fn readme_loading(repo: &str) -> (status: String)
    ensures
        status@ == repo@ + " のREADMEを読み込み中..."@,
{
    repo.to_owned().concat(" のREADMEを読み込み中...")
}

/// What the page shows of a README: new HTML, if any, and a status line.
pub struct Panel {
    pub html: Option<String>,
    pub status: String,
}

/// What a [`Panel`] says.
pub struct PanelView {
    pub html: Option<Seq<char>>,
    pub status: Seq<char>,
}

impl View for Panel {
    type V = PanelView;

    open spec fn view(&self) -> PanelView {
        PanelView { html: maybe_text(self.html), status: self.status@ }
    }
}

/// The panel with a README on a branch, given as HTML; or the panel that says that
/// there is none.
pub open spec fn readme_shown(repo: Seq<char>, page: Option<(Seq<char>, Seq<char>)>) -> PanelView {
    match page {
        Some((branch, html)) => PanelView {
            html: Some(html),
            status: repo + " (branch: "@ + branch + ")"@,
        },
        None => PanelView {
            html: Some("<p><em>README.md が見つかりませんでした。</em></p>"@),
            status: repo + ": README.md無し"@,
        },
    }
}

/// The panel once a README was fetched, or could not be.
pub open spec fn readme_panel(repo: Seq<char>, fetched: Option<Seq<char>>) -> PanelView {
    match fetched {
        Some(text) => readme_shown(
            repo,
            match branch_and_content(json_outline(text)) {
                Some((branch, content)) => Some((branch, rendered_markdown(content))),
                None => None,
            },
        ),
        None => PanelView { html: None, status: repo + ": 読み込みに失敗しました"@ },
    }
}

/// The panel with a README on a branch, given as HTML; or the panel that says that
/// there is none.
pub fn show_readme(repo: &str, page: Option<(String, String)>) -> (panel: Panel)
    ensures
        panel@ == readme_shown(repo@, maybe_pair(page)),
{
    match page {
        Some((branch, html)) => Panel {
            html: Some(html),
            status: repo.to_owned().concat(" (branch: ").concat(&branch).concat(")"),
        },
        None => Panel {
            html: Some("<p><em>README.md が見つかりませんでした。</em></p>".to_owned()),
            status: repo.to_owned().concat(": README.md無し"),
        },
    }
}

/// The panel once a README was fetched, or could not be.
pub fn load_readme(repo: &str, fetched: Option<&str>) -> (panel: Panel)
    ensures
        panel@ == readme_panel(repo@, view_of(fetched)),
{
    match fetched {
        Some(text) => match parse_readme_fields(text) {
            Some((branch, content)) => show_readme(repo, Some((branch, markdown_to_html(&content)))),
            None => show_readme(repo, None),
        },
        None => Panel { html: None, status: repo.to_owned().concat(": 読み込みに失敗しました") },
    }
}

/// An item of a list on a page.
pub enum ListItem {
    /// A link that carries attributes.
    Link { attributes: Vec<(String, String)>, class_name: String, text: String },
    /// A text.
    Plain(String),
}

/// What a [`ListItem`] says.
pub enum ItemView {
    Link { attributes: Seq<(Seq<char>, Seq<char>)>, class_name: Seq<char>, text: Seq<char> },
    Plain(Seq<char>),
}

impl View for ListItem {
    type V = ItemView;

    open spec fn view(&self) -> ItemView {
        match self {
            ListItem::Link { attributes, class_name, text } => ItemView::Link {
                attributes: pairs(attributes@),
                class_name: class_name@,
                text: text@,
            },
            ListItem::Plain(text) => ItemView::Plain(text@),
        }
    }
}

/// The views of a list of items.
pub open spec fn item_views(list: Seq<ListItem>) -> Seq<ItemView> {
    list.map_values(|item: ListItem| item@)
}

/// The link to a repository.
pub open spec fn repo_link(name: Seq<char>) -> ItemView {
    ItemView::Link {
        attributes: seq![("href"@, "#"@), ("data-repo"@, name)],
        class_name: "repo-link"@,
        text: name,
    }
}

/// The links to repositories, one for each, in order.
pub fn render_repo_list(names: &Vec<String>) -> (items: Vec<ListItem>)
    ensures
        item_views(items@) == texts(names@).map_values(|name: Seq<char>| repo_link(name)),
{
    let ghost all = texts(names@);
    let mut items: Vec<ListItem> = Vec::new();
    let mut i: usize = 0;
    while i < names.len()
        invariant
            i <= names@.len(),
            all == texts(names@),
            items@.len() == i,
            forall|j: int| 0 <= j < i ==> (#[trigger] items@[j])@ == repo_link(all[j]),
        decreases names@.len() - i,
    {
        let mut attributes: Vec<(String, String)> = Vec::new();
        attributes.push(("href".to_owned(), "#".to_owned()));
        attributes.push(("data-repo".to_owned(), names[i].clone()));
        assert(pairs(attributes@) =~= seq![("href"@, "#"@), ("data-repo"@, all[i as int])]);
        items.push(ListItem::Link { attributes, class_name: "repo-link".to_owned(), text: names[i].clone() });
        i += 1;
    }
    assert(item_views(items@) =~= all.map_values(|name: Seq<char>| repo_link(name)));
    items
}

/// The status line once the list of repositories was fetched, or could not be.
pub open spec fn list_status(fetched: Option<Seq<char>>) -> Seq<char> {
    match fetched {
        Some(text) => decimal_of(strings_in(json_outline(text)).len()) + "件のリポジトリ"@,
        None => "リポジトリ一覧の読み込みに失敗しました"@,
    }
}

/// The number of repositories, as the status line says it.
pub fn count_status(names: &Vec<String>) -> (status: String)
    ensures
        status@ == decimal_of(names@.len()) + "件のリポジトリ"@,
{
    decimal(names.len()).concat("件のリポジトリ")
}

/// The items to show, if any, and the status line, once the list of repositories was
/// fetched, or could not be.
pub fn load_repo_list(fetched: Option<&str>) -> (result: (Option<Vec<ListItem>>, String))
    ensures
        match (result.0, fetched) {
            (Some(items), Some(text)) => item_views(items@) == strings_in(json_outline(text@)).map_values(
                |name: Seq<char>| repo_link(name),
            ),
            (None, None) => true,
            _ => false,
        },
        result.1@ == list_status(view_of(fetched)),
{
    match fetched {
        Some(text) => {
            let names = parse_string_array(text);
            assert(texts(names@).len() == names@.len());
            (Some(render_repo_list(&names)), count_status(&names))
        },
        None => (None, "リポジトリ一覧の読み込みに失敗しました".to_owned()),
    }
}

/// The text of the first element, from an element outwards, that carries one.
pub open spec fn first_carried(chain: Seq<Option<Seq<char>>>) -> Option<Seq<char>>
    decreases chain.len(),
{
    if chain.len() == 0 {
        None
    } else if chain[0] is Some {
        chain[0]
    } else {
        first_carried(chain.skip(1))
    }
}

/// The repository that a click is about: the attributes of the element that was
/// clicked and of those around it, from the inside outwards, are searched for one.
pub fn clicked_repo(chain: &Vec<Option<String>>) -> (repo: Option<String>)
    ensures
        maybe_text(repo) == first_carried(chain@.map_values(|c: Option<String>| maybe_text(c))),
{
    let ghost all = chain@.map_values(|c: Option<String>| maybe_text(c));
    let mut i: usize = 0;
    assert(all.skip(0) =~= all);
    while i < chain.len()
        invariant
            i <= chain@.len(),
            all == chain@.map_values(|c: Option<String>| maybe_text(c)),
            first_carried(all.skip(i as int)) == first_carried(all),
        decreases chain@.len() - i,
    {
        assert(all.skip(i as int)[0] == maybe_text(chain@[i as int]));
        assert(all.skip(i as int).skip(1) =~= all.skip(i + 1));
        match &chain[i] {
            Some(repo) => {
                return Some(repo.clone());
            },
            None => {},
        }
        i += 1;
    }
    assert(all.skip(i as int).len() == 0);
    None
}

/// The pair of texts of the first element, from an element outwards, that carries
/// both.
pub open spec fn first_pair(chain: Seq<(Option<Seq<char>>, Option<Seq<char>>)>) -> Option<(Seq<char>, Seq<char>)>
    decreases chain.len(),
{
    if chain.len() == 0 {
        None
    } else {
        match chain[0] {
            (Some(repo), Some(page)) => Some((repo, page)),
            _ => first_pair(chain.skip(1)),
        }
    }
}

/// The views of a list of pairs of optional texts.
pub open spec fn pair_views(list: Seq<(Option<String>, Option<String>)>) -> Seq<(Option<Seq<char>>, Option<Seq<char>>)> {
    list.map_values(|p: (Option<String>, Option<String>)| (maybe_text(p.0), maybe_text(p.1)))
}

/// The repository and the wiki page that a click is about.
pub fn clicked_page(chain: &Vec<(Option<String>, Option<String>)>) -> (page: Option<(String, String)>)
    ensures
        maybe_pair(page) == first_pair(pair_views(chain@)),
{
    let ghost all = pair_views(chain@);
    let mut i: usize = 0;
    assert(all.skip(0) =~= all);
    while i < chain.len()
        invariant
            i <= chain@.len(),
            all == pair_views(chain@),
            first_pair(all.skip(i as int)) == first_pair(all),
        decreases chain@.len() - i,
    {
        assert(all.skip(i as int)[0] == (maybe_text(chain@[i as int].0), maybe_text(chain@[i as int].1)));
        assert(all.skip(i as int).skip(1) =~= all.skip(i + 1));
        match (&chain[i].0, &chain[i].1) {
            (Some(repo), Some(page)) => {
                return Some((repo.clone(), page.clone()));
            },
            _ => {},
        }
        i += 1;
    }
    assert(all.skip(i as int).len() == 0);
    None
}

/// The HTML that says how to edit the wiki of a repository.
pub fn edit_instructions_html(repo: &str) -> (html: String)
    ensures
        html@
            == "<p class=\"wiki-edit-note\">✏️ このWikiはリポジトリと同じgitで管理されています。編集するには:</p><pre><code>git clone &lt;サーバーURL&gt;/"@
            + repo@ + ".wiki.git\ncd "@ + repo@
            + ".wiki\n# ページ(.mdファイル)を追加・編集\ngit add . &amp;&amp; git commit -m \"update wiki\"\ngit push</code></pre><p class=\"wiki-edit-note\">アクセス権限は本体リポジトリの閲覧/ダウンロード/push許可と共有されます。</p>"@,
{
    "<p class=\"wiki-edit-note\">✏️ このWikiはリポジトリと同じgitで管理されています。編集するには:</p><pre><code>git clone &lt;サーバーURL&gt;/".to_owned().concat(
    repo).concat(".wiki.git\ncd ").concat(repo).concat(
        ".wiki\n# ページ(.mdファイル)を追加・編集\ngit add . &amp;&amp; git commit -m \"update wiki\"\ngit push</code></pre><p class=\"wiki-edit-note\">アクセス権限は本体リポジトリの閲覧/ダウンロード/push許可と共有されます。</p>",
    )
}

/// The URL that the list of wiki pages of a repository is fetched from.
pub fn wiki_url(repo: &str) -> (url: String)
    ensures
        url@ == "/api/repos/"@ + repo@ + "/wiki"@,
{
    "/api/repos/".to_owned().concat(repo).concat("/wiki")
}

/// The URL that a wiki page is fetched from.
pub fn page_url(repo: &str, page: &str) -> (url: String)
    ensures
        url@ == "/api/repos/"@ + repo@ + "/wiki/"@ + page@,
{
    "/api/repos/".to_owned().concat(repo).concat("/wiki/").concat(page)
}

/// The HTML that shows a wiki page, given as HTML; or that says that it cannot be
/// read.
pub open spec fn page_shown(html: Option<Seq<char>>) -> Seq<char> {
    match html {
        Some(html) => html,
        None => "<p><em>ページを読み込めませんでした。</em></p>"@,
    }
}

/// The HTML that shows a wiki page, given as HTML; or that says that it cannot be
/// read.
pub fn show_page(html: Option<String>) -> (shown: String)
    ensures
        shown@ == page_shown(maybe_text(html)),
{
    match html {
        Some(html) => html,
        None => "<p><em>ページを読み込めませんでした。</em></p>".to_owned(),
    }
}

/// The HTML of a wiki page, once it was fetched, or could not be.
pub open spec fn page_html(fetched: Option<Seq<char>>) -> Seq<char> {
    match fetched {
        Some(text) => page_shown(
            match branch_and_content(json_outline(text)) {
                Some((_, content)) => Some(rendered_markdown(content)),
                None => None,
            },
        ),
        None => "<p><em>ページの読み込みに失敗しました。</em></p>"@,
    }
}

/// The HTML of a wiki page, once it was fetched, or could not be.
pub fn load_page(fetched: Option<&str>) -> (html: String)
    ensures
        html@ == page_html(view_of(fetched)),
{
    match fetched {
        Some(text) => match parse_page_fields(text) {
            Some((_branch, content)) => show_page(Some(markdown_to_html(&content))),
            None => show_page(None),
        },
        None => "<p><em>ページの読み込みに失敗しました。</em></p>".to_owned(),
    }
}

/// The link to a wiki page.
pub open spec fn page_link(repo: Seq<char>, page: Seq<char>) -> ItemView {
    ItemView::Link {
        attributes: seq![("href"@, "#"@), ("data-wiki-repo"@, repo), ("data-wiki-page"@, page)],
        class_name: "wiki-link"@,
        text: page,
    }
}

/// The links to wiki pages, or a note that there are none.
pub open spec fn page_items(repo: Seq<char>, pages: Seq<Seq<char>>) -> Seq<ItemView> {
    if pages.len() == 0 {
        seq![ItemView::Plain("(まだページがありません)"@)]
    } else {
        pages.map_values(|page: Seq<char>| page_link(repo, page))
    }
}

/// The links to wiki pages, or a note that there are none.
pub fn render_page_list(repo: &str, pages: &Vec<String>) -> (items: Vec<ListItem>)
    ensures
        item_views(items@) == page_items(repo@, texts(pages@)),
{
    let ghost all = texts(pages@);
    let mut items: Vec<ListItem> = Vec::new();
    let mut i: usize = 0;
    while i < pages.len()
        invariant
            i <= pages@.len(),
            all == texts(pages@),
            items@.len() == i,
            forall|j: int| 0 <= j < i ==> (#[trigger] items@[j])@ == page_link(repo@, all[j]),
        decreases pages@.len() - i,
    {
        let mut attributes: Vec<(String, String)> = Vec::new();
        attributes.push(("href".to_owned(), "#".to_owned()));
        attributes.push(("data-wiki-repo".to_owned(), repo.to_owned()));
        attributes.push(("data-wiki-page".to_owned(), pages[i].clone()));
        assert(pairs(attributes@) =~= seq![
            ("href"@, "#"@),
            ("data-wiki-repo"@, repo@),
            ("data-wiki-page"@, all[i as int]),
        ]);
        items.push(ListItem::Link { attributes, class_name: "wiki-link".to_owned(), text: pages[i].clone() });
        i += 1;
    }
    if pages.len() == 0 {
        items.push(ListItem::Plain("(まだページがありません)".to_owned()));
    }
    assert(item_views(items@) =~= page_items(repo@, all));
    items
}

/// The items to show once the list of wiki pages of a repository was fetched, or the
/// HTML that says that it could not be.
pub fn load_wiki_list(repo: &str, fetched: Option<&str>) -> (shown: Result<Vec<ListItem>, String>)
    ensures
        match (shown, fetched) {
            (Ok(items), Some(text)) => item_views(items@) == page_items(repo@, strings_in(json_outline(text@))),
            (Err(html), None) => html@ == "<li>Wiki一覧の読み込みに失敗しました。</li>"@,
            _ => false,
        },
{
    match fetched {
        Some(text) => Ok(render_page_list(repo, &parse_string_array(text))),
        None => Err("<li>Wiki一覧の読み込みに失敗しました。</li>".to_owned()),
    }
}

/// The value of the first attribute with a name.
pub open spec fn attribute_of(attributes: Seq<(Seq<char>, Seq<char>)>, name: Seq<char>) -> Option<Seq<char>>
    decreases attributes.len(),
{
    if attributes.len() == 0 {
        None
    } else if attributes[0].0 == name {
        Some(attributes[0].1)
    } else {
        attribute_of(attributes.skip(1), name)
    }
}

/// A click on the link to a repository, or on anything inside the link that carries
/// no name of a repository itself, is about that repository.
pub proof fn law_click_finds_its_repo(name: Seq<char>, inside: nat, around: Seq<Option<Seq<char>>>)
    ensures
        repo_link(name) matches ItemView::Link { attributes, .. } && first_carried(
            Seq::new(inside, |i: int| None::<Seq<char>>) + seq![attribute_of(attributes, "data-repo"@)] + around,
        ) == Some(name),
    decreases inside,
{
    reveal_strlit("href");
    reveal_strlit("data-repo");
    let attributes = seq![("href"@, "#"@), ("data-repo"@, name)];
    assert(attributes.skip(1)[0] == ("data-repo"@, name));
    assert("href"@.len() != "data-repo"@.len());
    assert(attribute_of(attributes.skip(1), "data-repo"@) == Some(name));
    assert(attribute_of(attributes, "data-repo"@) == Some(name));
    let chain = Seq::new(inside, |i: int| None::<Seq<char>>) + seq![Some(name)] + around;
    if inside > 0 {
        let fewer = (inside - 1) as nat;
        law_click_finds_its_repo(name, fewer, around);
        assert(chain.skip(1) =~= Seq::new(fewer, |i: int| None::<Seq<char>>) + seq![Some(name)] + around);
    }
}

/// The strings of a list are its items that are texts, all of them and in order; no
/// other document has any.
pub proof fn law_strings_of_a_list(
    items: Seq<Option<Seq<char>>>,
    text: Seq<char>,
    fields: Seq<(Seq<char>, Option<Seq<char>>)>,
)
    ensures
        strings_in(Some(OutlineView::List(Seq::empty()))).len() == 0,
        strings_in(Some(OutlineView::List(items.push(Some(text))))) == strings_in(Some(OutlineView::List(items))).push(
            text,
        ),
        strings_in(Some(OutlineView::List(items.push(None)))) == strings_in(Some(OutlineView::List(items))),
        strings_in(Some(OutlineView::Object(fields))).len() == 0,
        strings_in(Some(OutlineView::Scalar)).len() == 0,
        strings_in(None).len() == 0,
{
    assert(items.push(Some(text)).drop_last() =~= items);
    assert(items.push(None).drop_last() =~= items);
}

/// The text under a key is that of the first field with the key; the other fields count
/// for nothing.
pub proof fn law_text_under_a_key(
    fields: Seq<(Seq<char>, Option<Seq<char>>)>,
    key: Seq<char>,
    other: Seq<char>,
    value: Option<Seq<char>>,
)
    ensures
        text_under(Seq::empty(), key) is None,
        text_under(seq![(key, value)] + fields, key) == value,
        other != key ==> text_under(seq![(other, value)] + fields, key) == text_under(fields, key),
{
    assert((seq![(other, value)] + fields).skip(1) =~= fields);
}

/// A document gives a branch and a content where it is an object with both as texts.
pub proof fn law_branch_and_content(
    fields: Seq<(Seq<char>, Option<Seq<char>>)>,
    items: Seq<Option<Seq<char>>>,
)
    ensures
        branch_and_content(Some(OutlineView::Object(fields))) == (match (
            text_under(fields, "branch"@),
            text_under(fields, "content"@),
        ) {
            (Some(branch), Some(content)) => Some((branch, content)),
            _ => None,
        }),
        branch_and_content(Some(OutlineView::List(items))) is None,
        branch_and_content(Some(OutlineView::Scalar)) is None,
        branch_and_content(None) is None,
{
}

/// A README is shown as the HTML of its content, with its repository and its branch in
/// the status line; without one the page says so, and where it could not be fetched the
/// page stays as it is.
pub proof fn law_readme_on_the_page(repo: Seq<char>, text: Seq<char>, branch: Seq<char>, html: Seq<char>)
    ensures
        readme_shown(repo, Some((branch, html))).html == Some(html),
        readme_shown(repo, Some((branch, html))).status == repo + " (branch: "@ + branch + ")"@,
        readme_shown(repo, None).html == Some("<p><em>README.md が見つかりませんでした。</em></p>"@),
        readme_shown(repo, None).status == repo + ": README.md無し"@,
        match branch_and_content(json_outline(text)) {
            Some((b, content)) => readme_panel(repo, Some(text)).html == Some(rendered_markdown(content)) && readme_panel(
                repo,
                Some(text),
            ).status == repo + " (branch: "@ + b + ")"@,
            None => readme_panel(repo, Some(text)) == readme_shown(repo, None),
        },
        readme_panel(repo, None).html is None,
        readme_panel(repo, None).status == repo + ": 読み込みに失敗しました"@,
{
}

/// The status line counts the repositories that were fetched.
pub proof fn law_repositories_are_counted(text: Seq<char>)
    ensures
        list_status(Some(text)) == decimal_of(strings_in(json_outline(text)).len()) + "件のリポジトリ"@,
        list_status(None) == "リポジトリ一覧の読み込みに失敗しました"@,
{
}

/// A wiki page is shown as the HTML of its content, and the page says where it cannot be
/// read or fetched.
pub proof fn law_wiki_page_on_the_page(text: Seq<char>, html: Seq<char>)
    ensures
        page_shown(Some(html)) == html,
        page_shown(None) == "<p><em>ページを読み込めませんでした。</em></p>"@,
        match branch_and_content(json_outline(text)) {
            Some((_, content)) => page_html(Some(text)) == rendered_markdown(content),
            None => page_html(Some(text)) == "<p><em>ページを読み込めませんでした。</em></p>"@,
        },
        page_html(None) == "<p><em>ページの読み込みに失敗しました。</em></p>"@,
{
}

/// Each repository and each wiki page has a link that shows its name and carries what a
/// click on it is about, and there is one link for each page, in order.
pub proof fn law_links(repo: Seq<char>, page: Seq<char>, pages: Seq<Seq<char>>, i: int)
    ensures
        repo_link(repo) == (ItemView::Link {
            attributes: seq![("href"@, "#"@), ("data-repo"@, repo)],
            class_name: "repo-link"@,
            text: repo,
        }),
        page_link(repo, page) == (ItemView::Link {
            attributes: seq![("href"@, "#"@), ("data-wiki-repo"@, repo), ("data-wiki-page"@, page)],
            class_name: "wiki-link"@,
            text: page,
        }),
        pages.len() == 0 ==> page_items(repo, pages) == seq![ItemView::Plain("(まだページがありません)"@)],
        pages.len() > 0 ==> page_items(repo, pages).len() == pages.len(),
        0 <= i < pages.len() ==> page_items(repo, pages)[i] == page_link(repo, pages[i]),
{
}

/// A click is about what the innermost element carries that carries anything.
pub proof fn law_clicks(
    text: Seq<char>,
    around: Seq<Option<Seq<char>>>,
    first: Option<Seq<char>>,
    second: Option<Seq<char>>,
    pairs_around: Seq<(Option<Seq<char>>, Option<Seq<char>>)>,
)
    ensures
        first_carried(Seq::empty()) is None,
        first_carried(seq![Some(text)] + around) == Some(text),
        first_carried(seq![None] + around) == first_carried(around),
        first_pair(Seq::empty()) is None,
        first is Some && second is Some ==> first_pair(seq![(first, second)] + pairs_around) == Some(
            (first->0, second->0),
        ),
        first is None || second is None ==> first_pair(seq![(first, second)] + pairs_around) == first_pair(
            pairs_around,
        ),
{
    assert((seq![None] + around).skip(1) =~= around);
    assert((seq![(first, second)] + pairs_around).skip(1) =~= pairs_around);
}

/// What a panel and a list item say is what they hold.
pub proof fn law_panel_and_items_show_their_fields(panel: Panel, item: ListItem, i: int)
    ensures
        panel@.status == panel.status@,
        match panel.html {
            Some(html) => panel@.html == Some(html@),
            None => panel@.html is None,
        },
        match item {
            ListItem::Link { attributes, class_name, text } => item@ matches ItemView::Link {
                attributes: shown,
                class_name: class,
                text: words,
            } && class == class_name@ && words == text@ && shown.len() == attributes@.len() && (0 <= i < attributes@.len()
                ==> shown[i] == (attributes@[i].0@, attributes@[i].1@)),
            ListItem::Plain(text) => item@ == ItemView::Plain(text@),
        },
{
}

/// Lists, pairs and documents say what they hold, each at its place.
pub proof fn law_parts_keep_their_places(
    items: Seq<ListItem>,
    chain: Seq<(Option<String>, Option<String>)>,
    pair: Option<(String, String)>,
    outline: Option<JsonOutline>,
    i: int,
)
    ensures
        item_views(items).len() == items.len(),
        0 <= i < items.len() ==> item_views(items)[i] == items[i]@,
        pair_views(chain).len() == chain.len(),
        0 <= i < chain.len() ==> pair_views(chain)[i] == (maybe_text(chain[i].0), maybe_text(chain[i].1)),
        match pair {
            Some((a, b)) => maybe_pair(pair) == Some((a@, b@)),
            None => maybe_pair(pair) is None,
        },
        match outline {
            Some(o) => maybe_outline(outline) == Some(o@),
            None => maybe_outline(outline) is None,
        },
{
}

} // verus!
