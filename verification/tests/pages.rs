//! What the pages in the browser show.

use rgit::access::{Settings, Visitor};
use rgit::accounts::{list_accounts, AccountStore};
use rgit::outside::JsonOutline;
use rgit::pages::{
    clicked_page, clicked_repo, count_status, edit_instructions_html, list_strings, load_page, load_readme,
    load_repo_list, load_wiki_list, markdown_to_html, outline_fields, page_url, parse_page_fields, parse_readme_fields,
    parse_string_array, readme_loading, readme_url, render_page_list, render_repo_list, show_page, show_readme, wiki_url,
    ListItem,
};
use rgit::reply::{Answer, Body};
use rgit::store::TextSet;

fn pair(a: &str, b: &str) -> Option<(String, String)> {
    Some((a.to_string(), b.to_string()))
}

fn link(item: &ListItem) -> (Vec<(&str, &str)>, &str, &str) {
    match item {
        ListItem::Link { attributes, class_name, text } => {
            (attributes.iter().map(|(a, b)| (a.as_str(), b.as_str())).collect(), class_name, text)
        }
        ListItem::Plain(_) => panic!("no link"),
    }
}

#[test]
fn strings_of_an_array() {
    assert_eq!(parse_string_array(r#"["a", "b\"c", "日本"]"#), ["a", "b\"c", "日本"]);
    assert_eq!(parse_string_array(r#"["a", 1, null, ["x"], "b"]"#), ["a", "b"]);
    for text in ["[]", "", "{}", "\"a\"", "[\"a\"", "nonsense", "1"] {
        assert!(parse_string_array(text).is_empty(), "{text}");
    }
}

#[test]
fn strings_of_a_document() {
    let list = JsonOutline::List(vec![Some("a".to_string()), None, Some("b".to_string())]);
    assert_eq!(list_strings(&Some(list)), ["a", "b"]);
    assert!(list_strings(&Some(JsonOutline::Scalar)).is_empty());
    assert!(list_strings(&None).is_empty());
}

#[test]
fn page_reads_what_the_server_writes() {
    let mut emails = TextSet::new();
    for email in ["b@x", "a\"\\\n@x", "日本@x", "\u{1}@x"] {
        emails.insert(email.to_string());
    }
    let store = AccountStore { emails, can_create_repos: TextSet::new(), pending_requests: Vec::new() };
    let settings = Settings { admin_email: "admin@x".to_string(), accounts_locked: true };
    let admin = Visitor { identity: Some("admin@x".to_string()), group_token: None };
    let bytes = match list_accounts(&admin, &settings, &store) {
        Answer::Response(r) => match r.body {
            Body::Bytes(bytes) => bytes,
            _ => panic!("no bytes"),
        },
        Answer::Failure { .. } => panic!("a failure"),
    };
    assert_eq!(parse_string_array(&String::from_utf8(bytes).unwrap()), ["\u{1}@x", "a\"\\\n@x", "b@x", "日本@x"]);
}

#[test]
fn fields_of_a_readme() {
    let text = r##"{"content": "# T", "other": 1, "branch": "main"}"##;
    assert_eq!(parse_readme_fields(text), pair("main", "# T"));
    assert_eq!(parse_page_fields(text), pair("main", "# T"));
    for text in ["", "[]", "{}", r#"{"branch":"main"}"#, r#"{"branch":1,"content":"x"}"#, "repository not found"] {
        assert_eq!(parse_readme_fields(text), None, "{text}");
        assert_eq!(parse_page_fields(text), None, "{text}");
    }
}

#[test]
fn fields_of_a_document() {
    let field = |key: &str, value: Option<&str>| (key.to_string(), value.map(str::to_string));
    let object = JsonOutline::Object(vec![field("content", Some("c")), field("x", None), field("branch", Some("b"))]);
    assert_eq!(outline_fields(&Some(object)), pair("b", "c"));
    let no_text = JsonOutline::Object(vec![field("content", None), field("branch", Some("b"))]);
    assert_eq!(outline_fields(&Some(no_text)), None);
    assert_eq!(outline_fields(&Some(JsonOutline::List(Vec::new()))), None);
    assert_eq!(outline_fields(&None), None);
}

#[test]
fn markdown_becomes_html() {
    assert_eq!(markdown_to_html("# T\n\n*x*"), "<h1>T</h1>\n<p><em>x</em></p>\n");
    assert_eq!(markdown_to_html(""), "");
}

#[test]
fn readme_panel() {
    assert_eq!(readme_url("demo.git"), "/api/repos/demo.git/readme");
    assert_eq!(readme_loading("demo"), "demo のREADMEを読み込み中...");
    let shown = load_readme("demo", Some(r##"{"branch":"main","content":"# T"}"##));
    assert_eq!(shown.html.as_deref(), Some("<h1>T</h1>\n"));
    assert_eq!(shown.status, "demo (branch: main)");
    let missing = load_readme("demo", Some("README.md not found in default branch"));
    assert_eq!(missing.html.as_deref(), Some("<p><em>README.md が見つかりませんでした。</em></p>"));
    assert_eq!(missing.status, "demo: README.md無し");
    let failed = load_readme("demo", None);
    assert_eq!(failed.html, None);
    assert_eq!(failed.status, "demo: 読み込みに失敗しました");
    let given = show_readme("demo", pair("dev", "<p>x</p>"));
    assert_eq!((given.html.as_deref(), given.status.as_str()), (Some("<p>x</p>"), "demo (branch: dev)"));
}

#[test]
fn list_of_repositories() {
    let names = vec!["a.git".to_string(), "b.git".to_string()];
    let items = render_repo_list(&names);
    assert_eq!(items.len(), 2);
    assert_eq!(link(&items[1]), (vec![("href", "#"), ("data-repo", "b.git")], "repo-link", "b.git"));
    assert_eq!(count_status(&names), "2件のリポジトリ");
    let (shown, status) = load_repo_list(Some(r#"["a.git"]"#));
    assert_eq!(link(&shown.unwrap()[0]).2, "a.git");
    assert_eq!(status, "1件のリポジトリ");
    let (none, status) = load_repo_list(Some("nonsense"));
    assert!(none.unwrap().is_empty());
    assert_eq!(status, "0件のリポジトリ");
    let (nothing, status) = load_repo_list(None);
    assert!(nothing.is_none());
    assert_eq!(status, "リポジトリ一覧の読み込みに失敗しました");
}

#[test]
fn clicks_find_what_they_are_about() {
    let some = |text: &str| Some(text.to_string());
    assert_eq!(clicked_repo(&vec![None, some("a"), some("b")]).as_deref(), Some("a"));
    assert_eq!(clicked_repo(&vec![None, None]), None);
    assert_eq!(clicked_repo(&Vec::new()), None);
    let chain = vec![(None, None), (some("r"), None), (None, some("p")), (some("r"), some("p")), (some("x"), some("y"))];
    assert_eq!(clicked_page(&chain), pair("r", "p"));
    assert_eq!(clicked_page(&vec![(some("r"), None)]), None);
}

#[test]
fn wiki_pages() {
    assert_eq!(wiki_url("demo"), "/api/repos/demo/wiki");
    assert_eq!(page_url("demo", "Home"), "/api/repos/demo/wiki/Home");
    let items = render_page_list("demo", &vec!["Home".to_string()]);
    assert_eq!(
        link(&items[0]),
        (vec![("href", "#"), ("data-wiki-repo", "demo"), ("data-wiki-page", "Home")], "wiki-link", "Home")
    );
    let empty = render_page_list("demo", &Vec::new());
    assert_eq!(empty.len(), 1);
    assert!(matches!(&empty[0], ListItem::Plain(text) if text == "(まだページがありません)"));
    assert_eq!(load_wiki_list("demo", Some(r#"["Home","FAQ"]"#)).ok().unwrap().len(), 2);
    assert_eq!(
        load_wiki_list("demo", None).err().as_deref(),
        Some("<li>Wiki一覧の読み込みに失敗しました。</li>")
    );
}

#[test]
fn wiki_page_content() {
    assert_eq!(load_page(Some(r#"{"branch":"main","content":"*x*"}"#)), "<p><em>x</em></p>\n");
    assert_eq!(load_page(Some("{}")), "<p><em>ページを読み込めませんでした。</em></p>");
    assert_eq!(load_page(None), "<p><em>ページの読み込みに失敗しました。</em></p>");
    assert_eq!(show_page(Some("<p>x</p>".to_string())), "<p>x</p>");
}

#[test]
fn how_to_edit_a_wiki() {
    let html = edit_instructions_html("demo");
    assert!(html.starts_with("<p class=\"wiki-edit-note\">✏️ このWikiはリポジトリと同じgitで管理されています。"));
    assert!(html.contains(
        "<pre><code>git clone &lt;サーバーURL&gt;/demo.wiki.git\ncd demo.wiki\n# ページ(.mdファイル)を追加・編集\n\
         git add . &amp;&amp; git commit -m \"update wiki\"\ngit push</code></pre>"
    ));
    assert!(html.ends_with("push許可と共有されます。</p>"));
}
