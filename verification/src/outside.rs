//! What the library takes from other crates and from the parts of the standard
//! library that carry no contract of their own.
//!
//! Everything stated here is believed, not proved: each function below makes one
//! call and hands its result on as plain values.

use vstd::prelude::*;
use vstd::utf8::{decode_utf8, valid_utf8};
use crate::reply::pairs;

verus! {

/// `String::push` appends one character at the end of the text.
pub assume_specification[ String::push ](s: &mut String, c: char)
    ensures
        final(s)@ == old(s)@.push(c),
;

/// `String::from_utf8`: the text that the bytes encode, when they are valid UTF-8,
/// and nothing otherwise.
#[verifier::external_body]
pub(crate) fn text_from_utf8(bytes: Vec<u8>) -> (text: Option<String>)
    ensures
        text is Some <==> valid_utf8(bytes@),
        text matches Some(s) ==> s@ == decode_utf8(bytes@),
{
    String::from_utf8(bytes).ok()
}

/// The text that `String::from_utf8_lossy` makes of bytes, with U+FFFD in place of
/// what is not UTF-8.
pub uninterp spec fn utf8_lossy(bytes: Seq<u8>) -> Seq<char>;

/// `String::from_utf8_lossy`: a text that depends on the bytes alone, and that is
/// the text they encode when they are valid UTF-8. How many U+FFFD stand for a run
/// of invalid bytes is left unsaid.
#[verifier::external_body]
pub(crate) fn text_from_utf8_lossy(bytes: &[u8]) -> (text: String)
    ensures
        text@ == utf8_lossy(bytes@),
        valid_utf8(bytes@) ==> text@ == decode_utf8(bytes@),
{
    String::from_utf8_lossy(bytes).into_owned()
}

/// The text that bytes are read as: the text that they encode, where they encode one,
/// and what `String::from_utf8_lossy` makes of them otherwise.
pub open spec fn lossy_text(bytes: Seq<u8>) -> Seq<char> {
    if valid_utf8(bytes) {
        decode_utf8(bytes)
    } else {
        utf8_lossy(bytes)
    }
}

/// The bytes that the `base64` crate decodes from a text in the standard alphabet
/// with padding, or nothing where it refuses the text.
pub uninterp spec fn base64_decoded(encoded: Seq<char>) -> Option<Seq<u8>>;

/// `base64::Engine::decode` with `general_purpose::STANDARD`: bytes that depend on
/// the text alone, or an error, which is dropped.
#[verifier::external_body]
pub(crate) fn decode_base64(encoded: &str) -> (bytes: Option<Vec<u8>>)
    ensures
        match bytes {
            Some(b) => base64_decoded(encoded@) == Some(b@),
            None => base64_decoded(encoded@) == None::<Seq<u8>>,
        },
{
    base64::Engine::decode(&base64::engine::general_purpose::STANDARD, encoded).ok()
}

/// `poem::http::StatusCode::from_u16`: accepts exactly the numbers from 100 to 999
/// and keeps the number.
#[verifier::external_body]
pub(crate) fn status_code(code: u16) -> (status: Option<u16>)
    ensures
        status == (if 100 <= code <= 999 { Some(code) } else { None }),
{
    poem::http::StatusCode::from_u16(code).ok().map(|status| status.as_u16())
}

/// The views of a list of texts.
pub open spec fn texts(list: Seq<String>) -> Seq<Seq<char>> {
    list.map_values(|s: String| s@)
}

/// The JSON array that `serde_json` writes for a list of texts.
pub uninterp spec fn json_array(list: Seq<Seq<char>>) -> Seq<u8>;

/// `serde_json::to_vec` on a list of texts: it does not fail on texts, the bytes
/// depend on the texts alone, they are UTF-8, and `serde_json::from_str` reads the
/// same texts back from them.
#[verifier::external_body]
pub(crate) fn write_json_array(list: &Vec<String>) -> (json: Option<Vec<u8>>)
    ensures
        json is Some,
        json->0@ == json_array(texts(list@)),
        valid_utf8(json->0@),
        json_outline(decode_utf8(json->0@)) == Some(
            OutlineView::List(texts(list@).map_values(|t: Seq<char>| Some(t))),
        ),
{
    serde_json::to_vec(list).ok()
}

/// No two fields have the same key.
pub open spec fn keys_differ(fields: Seq<(Seq<char>, Seq<char>)>) -> bool {
    forall|i: int, j: int| 0 <= i < j < fields.len() ==> (#[trigger] fields[i]).0 != (#[trigger] fields[j]).0
}

/// The text under a key among the fields of an object: that of the first field with
/// the key, if it is a text.
pub open spec fn text_under(fields: Seq<(Seq<char>, Option<Seq<char>>)>, key: Seq<char>) -> Option<Seq<char>>
    decreases fields.len(),
{
    if fields.len() == 0 {
        None
    } else if fields[0].0 == key {
        fields[0].1
    } else {
        text_under(fields.skip(1), key)
    }
}

/// The JSON in these bytes is an object with these fields and no other texts.
pub open spec fn holds_fields(json: Seq<u8>, fields: Seq<(Seq<char>, Seq<char>)>) -> bool {
    json_outline(decode_utf8(json)) matches Some(OutlineView::Object(read)) && forall|key: Seq<char>| #[trigger]
        text_under(read, key) == text_under(fields.map_values(|f: (Seq<char>, Seq<char>)| (f.0, Some(f.1))), key)
}

/// The JSON object that `serde_json` writes for fields that are texts.
pub uninterp spec fn json_object(fields: Seq<(Seq<char>, Seq<char>)>) -> Seq<u8>;

/// `serde::Serializer::collect_map` of `serde_json::Serializer`, on fields that are
/// texts: it does not fail on texts that are written to memory, the bytes depend on the
/// fields alone, they are UTF-8, and `serde_json::from_str` reads the same fields back
/// from them, where no key occurs twice.
#[verifier::external_body]
pub(crate) fn write_json_object(fields: &Vec<(String, String)>) -> (json: Option<Vec<u8>>)
    ensures
        json is Some,
        json->0@ == json_object(pairs(fields@)),
        valid_utf8(json->0@),
        keys_differ(pairs(fields@)) ==> holds_fields(json->0@, pairs(fields@)),
{
    let mut json: Vec<u8> = Vec::new();
    let mut writer = serde_json::Serializer::new(&mut json);
    serde::Serializer::collect_map(&mut writer, fields.iter().map(|field| (&field.0, &field.1))).ok()?;
    Some(json)
}

/// The outermost level of a JSON document. An item or a field holds its text where
/// its value is a JSON string, and nothing where it is anything else.
pub enum JsonOutline {
    List(Vec<Option<String>>),
    Object(Vec<(String, Option<String>)>),
    Scalar,
}

/// What a [`JsonOutline`] holds.
pub enum OutlineView {
    List(Seq<Option<Seq<char>>>),
    Object(Seq<(Seq<char>, Option<Seq<char>>)>),
    Scalar,
}

/// The view of an optional text.
pub open spec fn maybe_text(text: Option<String>) -> Option<Seq<char>> {
    match text {
        Some(s) => Some(s@),
        None => None,
    }
}

impl View for JsonOutline {
    type V = OutlineView;

    open spec fn view(&self) -> OutlineView {
        match self {
            JsonOutline::List(items) => OutlineView::List(
                items@.map_values(|item: Option<String>| maybe_text(item)),
            ),
            JsonOutline::Object(fields) => OutlineView::Object(
                fields@.map_values(|field: (String, Option<String>)| (field.0@, maybe_text(field.1))),
            ),
            JsonOutline::Scalar => OutlineView::Scalar,
        }
    }
}

/// The outline of the document that `serde_json` reads in a text, or nothing where
/// the text is not JSON.
pub uninterp spec fn json_outline(text: Seq<char>) -> Option<OutlineView>;

/// `serde_json::from_str` into `serde_json::Value`: a document that depends on the
/// text alone, or an error, which is dropped. Only the outermost level is handed on.
#[verifier::external_body]
pub(crate) fn read_json(text: &str) -> (outline: Option<JsonOutline>)
    ensures
        match outline {
            Some(o) => json_outline(text@) == Some(o@),
            None => json_outline(text@) == None::<OutlineView>,
        },
{
    match serde_json::from_str(text).ok()? {
        serde_json::Value::Array(items) => Some(JsonOutline::List(
            items.iter().map(|item| item.as_str().map(str::to_string)).collect(),
        )),
        serde_json::Value::Object(fields) => Some(JsonOutline::Object(
            fields.iter().map(|(key, value)| (key.clone(), value.as_str().map(str::to_string))).collect(),
        )),
        _ => Some(JsonOutline::Scalar),
    }
}

/// The HTML that `pulldown_cmark` renders for a Markdown text.
pub uninterp spec fn rendered_markdown(source: Seq<char>) -> Seq<char>;

/// `pulldown_cmark::html::push_html` on the events of `pulldown_cmark::Parser::new`:
/// HTML that depends on the Markdown text alone.
#[verifier::external_body]
pub(crate) fn render_markdown(source: &str) -> (html: String)
    ensures
        html@ == rendered_markdown(source@),
{
    let mut html = String::new();
    pulldown_cmark::html::push_html(&mut html, pulldown_cmark::Parser::new(source));
    html
}

/// What an outline says is what it holds.
pub proof fn law_outline_shows_its_items(outline: JsonOutline, i: int)
    ensures
        match outline {
            JsonOutline::List(items) => outline@ matches OutlineView::List(shown) && shown.len() == items@.len() && (0 <= i
                < items@.len() ==> match items@[i] {
                Some(text) => shown[i] == Some(text@),
                None => shown[i] is None,
            }),
            JsonOutline::Object(fields) => outline@ matches OutlineView::Object(shown) && shown.len() == fields@.len() && (
            0 <= i < fields@.len() ==> shown[i].0 == fields@[i].0@ && match fields@[i].1 {
                Some(text) => shown[i].1 == Some(text@),
                None => shown[i].1 is None,
            }),
            JsonOutline::Scalar => outline@ is Scalar,
        },
{
}

/// The texts of a list are the texts of its members, each at its place; an optional text
/// is there exactly where its text is.
pub proof fn law_lists_of_texts(list: Seq<String>, i: int, text: Option<String>)
    ensures
        texts(list).len() == list.len(),
        0 <= i < list.len() ==> texts(list)[i] == list[i]@,
        match text {
            Some(t) => maybe_text(text) == Some(t@),
            None => maybe_text(text) is None,
        },
{
}

} // verus!
