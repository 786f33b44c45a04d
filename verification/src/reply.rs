//! What the server answers.

use vstd::prelude::*;
use vstd::utf8::{decode_utf8, valid_utf8};
use crate::access::{AccessConfig, AccessView};
use crate::accounts::{AccessRequest, RequestView, request_views};
use crate::outside::{holds_fields, json_array, json_object, json_outline, keys_differ, maybe_text, texts,
    write_json_array, write_json_object};
use crate::pages::{lemma_all_texts, strings_in};

verus! {

/// The body of a response.
pub enum Body {
    Text(String),
    Bytes(Vec<u8>),
    /// Access settings, to be sent as a JSON object.
    Access(AccessConfig),
    /// Requests for access, to be sent as a JSON array of objects.
    Requests(Vec<AccessRequest>),
}

/// What a [`Body`] holds.
pub enum BodyView {
    Text(Seq<char>),
    Bytes(Seq<u8>),
    Access(AccessView),
    Requests(Seq<RequestView>),
}

impl View for Body {
    type V = BodyView;

    open spec fn view(&self) -> BodyView {
        match self {
            Body::Text(s) => BodyView::Text(s@),
            Body::Bytes(b) => BodyView::Bytes(b@),
            Body::Access(config) => BodyView::Access(config@),
            Body::Requests(list) => BodyView::Requests(request_views(list@)),
        }
    }
}

/// A response.
pub struct Response {
    pub status: u16,
    pub content_type: Option<String>,
    pub headers: Vec<(String, String)>,
    pub body: Body,
}

/// What a [`Response`] says.
pub struct ResponseView {
    pub status: u16,
    pub content_type: Option<Seq<char>>,
    pub headers: Seq<(Seq<char>, Seq<char>)>,
    pub body: BodyView,
}

/// The views of a list of pairs of texts.
pub open spec fn pairs(list: Seq<(String, String)>) -> Seq<(Seq<char>, Seq<char>)> {
    list.map_values(|p: (String, String)| (p.0@, p.1@))
}

impl View for Response {
    type V = ResponseView;

    open spec fn view(&self) -> ResponseView {
        ResponseView {
            status: self.status,
            content_type: maybe_text(self.content_type),
            headers: pairs(self.headers@),
            body: self.body@,
        }
    }
}

/// How the handling of a request ends: with a response, or with an error that the
/// server turns into one.
pub enum Answer {
    Response(Response),
    Failure { status: u16, message: String },
}

/// What an [`Answer`] says.
pub enum AnswerView {
    Response(ResponseView),
    Failure { status: u16, message: Seq<char> },
}

impl View for Answer {
    type V = AnswerView;

    open spec fn view(&self) -> AnswerView {
        match self {
            Answer::Response(r) => AnswerView::Response(r@),
            Answer::Failure { status, message } => AnswerView::Failure { status: *status, message: message@ },
        }
    }
}

/// The status that an answer reaches the client with.
pub open spec fn status_of(answer: AnswerView) -> u16 {
    match answer {
        AnswerView::Response(r) => r.status,
        AnswerView::Failure { status, .. } => status,
    }
}

/// An error.
pub open spec fn failure_view(status: u16, message: Seq<char>) -> AnswerView {
    AnswerView::Failure { status, message }
}

/// A response with a text and nothing else.
pub open spec fn response_view(status: u16, text: Seq<char>) -> AnswerView {
    body_view(status, None, BodyView::Text(text))
}

/// A response with a body of some type and no further header.
pub open spec fn body_view(status: u16, content_type: Option<Seq<char>>, body: BodyView) -> AnswerView {
    AnswerView::Response(ResponseView { status, content_type, headers: Seq::empty(), body })
}

/// A response with a JSON body.
pub open spec fn json_view(status: u16, body: BodyView) -> AnswerView {
    body_view(status, Some("application/json"@), body)
}

/// A response with a JSON array of texts.
pub open spec fn names_view(names: Seq<Seq<char>>) -> AnswerView {
    json_view(200, BodyView::Bytes(json_array(names)))
}

/// A response with a JSON object of texts.
pub open spec fn object_view(status: u16, fields: Seq<(Seq<char>, Seq<char>)>) -> AnswerView {
    json_view(status, BodyView::Bytes(json_object(fields)))
}

/// The response with one more header.
pub open spec fn header_view(answer: AnswerView, name: Seq<char>, value: Seq<char>) -> AnswerView {
    match answer {
        AnswerView::Response(r) => AnswerView::Response(
            ResponseView { headers: r.headers.push((name, value)), ..r },
        ),
        AnswerView::Failure { .. } => answer,
    }
}

/// An error.
pub fn failure(status: u16, message: &str) -> (answer: Answer)
    ensures
        answer@ == failure_view(status, message@),
{
    Answer::Failure { status, message: message.to_owned() }
}

/// A response with a text and nothing else.
pub fn response(status: u16, text: &str) -> (answer: Answer)
    ensures
        answer@ == response_view(status, text@),
{
    let answer = Answer::Response(
        Response { status, content_type: None, headers: Vec::new(), body: Body::Text(text.to_owned()) },
    );
    assert(pairs(Seq::<(String, String)>::empty()) =~= Seq::<(Seq<char>, Seq<char>)>::empty());
    answer
}

/// A response with a body of some type and no further header.
pub fn body_response(status: u16, content_type: &str, body: Body) -> (answer: Answer)
    ensures
        answer@ == body_view(status, Some(content_type@), body@),
{
    let answer = Answer::Response(
        Response { status, content_type: Some(content_type.to_owned()), headers: Vec::new(), body },
    );
    assert(pairs(Seq::<(String, String)>::empty()) =~= Seq::<(Seq<char>, Seq<char>)>::empty());
    answer
}

/// A response with a JSON body.
pub fn json_response(status: u16, body: Body) -> (answer: Answer)
    ensures
        answer@ == json_view(status, body@),
{
    body_response(status, "application/json", body)
}

/// The JSON array of texts is UTF-8, and a page reads the same texts from it.
pub open spec fn reads_names(names: Seq<Seq<char>>) -> bool {
    valid_utf8(json_array(names)) && strings_in(json_outline(decode_utf8(json_array(names)))) == names
}

/// The JSON object of texts is UTF-8, and a page reads the same fields from it.
pub open spec fn reads_fields(fields: Seq<(Seq<char>, Seq<char>)>) -> bool {
    valid_utf8(json_object(fields)) && holds_fields(json_object(fields), fields)
}

/// A response with a JSON array of texts, from which a page reads the same texts.
pub fn names_response(names: &Vec<String>) -> (answer: Answer)
    ensures
        answer@ == names_view(texts(names@)),
        reads_names(texts(names@)),
{
    array_response("application/json", names)
}

/// A response with a JSON array of texts of some content type, from which a page reads
/// the same texts.
pub fn array_response(content_type: &str, names: &Vec<String>) -> (answer: Answer)
    ensures
        answer@ == body_view(200, Some(content_type@), BodyView::Bytes(json_array(texts(names@)))),
        reads_names(texts(names@)),
{
    proof {
        lemma_all_texts(texts(names@));
    }
    let json: Vec<u8> = match write_json_array(names) {
        Some(bytes) => bytes,
        None => Vec::new(),
    };
    body_response(200, content_type, Body::Bytes(json))
}

/// A response with a JSON object of texts, from which a page reads the same fields.
pub fn object_response(status: u16, fields: &Vec<(String, String)>) -> (answer: Answer)
    ensures
        answer@ == object_view(status, pairs(fields@)),
        keys_differ(pairs(fields@)) ==> reads_fields(pairs(fields@)),
{
    let json: Vec<u8> = match write_json_object(fields) {
        Some(bytes) => bytes,
        None => Vec::new(),
    };
    json_response(status, Body::Bytes(json))
}

/// The response with one more header.
pub fn with_header(answer: Answer, name: &str, value: &str) -> (result: Answer)
    ensures
        result@ == header_view(answer@, name@, value@),
{
    match answer {
        Answer::Response(r) => {
            let mut headers = r.headers;
            let ghost before = headers@;
            headers.push((name.to_owned(), value.to_owned()));
            assert(pairs(headers@) =~= pairs(before).push((name@, value@)));
            Answer::Response(Response { status: r.status, content_type: r.content_type, headers, body: r.body })
        },
        Answer::Failure { status, message } => Answer::Failure { status, message },
    }
}

/// The answer after a write: the one that was prepared, or an error with the message
/// of the write that failed.
pub open spec fn written_view(done: AnswerView, failed: Option<Seq<char>>) -> AnswerView {
    match failed {
        Some(message) => failure_view(500, message),
        None => done,
    }
}

/// The answer after a write.
pub fn after_write(done: Answer, failed: Option<String>) -> (answer: Answer)
    ensures
        answer@ == written_view(done@, maybe_text(failed)),
{
    match failed {
        Some(message) => Answer::Failure { status: 500, message },
        None => done,
    }
}

/// A record that has changed and is to be written, with the answer for the case that
/// the write succeeds.
pub struct Change<T> {
    pub record: T,
    pub done: Answer,
}

impl<T> Change<T> {
    /// The answer after the write.
    pub fn saved(self, failed: Option<String>) -> (answer: Answer)
        ensures
            answer@ == written_view(self.done@, maybe_text(failed)),
    {
        after_write(self.done, failed)
    }
}

/// An answer carries the status, the text, the bytes and the type that it was made
/// with, and a header that is added stands behind those that were there.
pub proof fn law_answers_carry_what_they_were_made_with(
    status: u16,
    text: Seq<char>,
    content_type: Seq<char>,
    body: BodyView,
    headers: Seq<(Seq<char>, Seq<char>)>,
    name: Seq<char>,
    value: Seq<char>,
)
    ensures
        failure_view(status, text) == (AnswerView::Failure { status, message: text }),
        response_view(status, text) == AnswerView::Response(
            ResponseView { status, content_type: None, headers: Seq::empty(), body: BodyView::Text(text) },
        ),
        body_view(status, Some(content_type), body) == AnswerView::Response(
            ResponseView { status, content_type: Some(content_type), headers: Seq::empty(), body },
        ),
        json_view(status, body) == AnswerView::Response(
            ResponseView { status, content_type: Some("application/json"@), headers: Seq::empty(), body },
        ),
        header_view(
            AnswerView::Response(ResponseView { status, content_type: Some(content_type), headers, body }),
            name,
            value,
        ) == AnswerView::Response(
            ResponseView { status, content_type: Some(content_type), headers: headers + seq![(name, value)], body },
        ),
        status_of(response_view(status, text)) == status,
        status_of(failure_view(status, text)) == status,
{
    assert(headers.push((name, value)) =~= headers + seq![(name, value)]);
}

/// A list or an object of texts is sent as JSON with the bytes that the JSON writer
/// gives, and nothing else.
pub proof fn law_json_is_sent_as_written(names: Seq<Seq<char>>, status: u16, fields: Seq<(Seq<char>, Seq<char>)>)
    ensures
        names_view(names) == AnswerView::Response(
            ResponseView {
                status: 200,
                content_type: Some("application/json"@),
                headers: Seq::empty(),
                body: BodyView::Bytes(json_array(names)),
            },
        ),
        object_view(status, fields) == AnswerView::Response(
            ResponseView {
                status,
                content_type: Some("application/json"@),
                headers: Seq::empty(),
                body: BodyView::Bytes(json_object(fields)),
            },
        ),
{
}

/// After a write the prepared answer is given where the write succeeded, and an error
/// with its message where it failed.
pub proof fn law_failed_writes_are_reported(done: AnswerView, message: Seq<char>)
    ensures
        written_view(done, None) == done,
        written_view(done, Some(message)) == (AnswerView::Failure { status: 500, message }),
{
}

/// What an answer says is what its fields hold.
pub proof fn law_answer_shows_its_fields(answer: Answer, i: int)
    ensures
        match answer {
            Answer::Response(r) => answer@ matches AnswerView::Response(v) && v.status == r.status && (
            match r.content_type {
                Some(t) => v.content_type == Some(t@),
                None => v.content_type is None,
            }) && v.headers.len() == r.headers@.len() && (0 <= i < r.headers@.len() ==> v.headers[i] == (
                r.headers@[i].0@,
                r.headers@[i].1@,
            )) && (match r.body {
                Body::Text(text) => v.body == BodyView::Text(text@),
                Body::Bytes(bytes) => v.body == BodyView::Bytes(bytes@),
                Body::Access(config) => v.body == BodyView::Access(config@),
                Body::Requests(list) => v.body matches BodyView::Requests(shown) && shown.len() == list@.len() && (0 <= i
                    < list@.len() ==> shown[i] == list@[i]@),
            }),
            Answer::Failure { status, message } => answer@ == (AnswerView::Failure { status, message: message@ }),
        },
{
}

/// A text response with a status, written out.
pub open spec fn says(answer: AnswerView, status: u16, text: Seq<char>) -> bool {
    answer matches AnswerView::Response(r) && r.status == status && r.content_type is None && r.headers.len() == 0
        && r.body == BodyView::Text(text)
}

/// Pairs of texts keep their places, and what is sent as JSON is read back as what it was
/// made of.
pub proof fn law_sent_lists_are_read_back(
    list: Seq<(String, String)>,
    i: int,
    names: Seq<Seq<char>>,
    fields: Seq<(Seq<char>, Seq<char>)>,
    key: Seq<char>,
)
    ensures
        pairs(list).len() == list.len(),
        0 <= i < list.len() ==> pairs(list)[i] == (list[i].0@, list[i].1@),
        reads_names(names) ==> valid_utf8(json_array(names)) && strings_in(
            json_outline(decode_utf8(json_array(names))),
        ) == names,
        reads_fields(fields) ==> valid_utf8(json_object(fields)) && (json_outline(
            decode_utf8(json_object(fields)),
        ) matches Some(crate::outside::OutlineView::Object(read)) && crate::outside::text_under(read, key)
            == crate::outside::text_under(
            fields.map_values(|f: (Seq<char>, Seq<char>)| (f.0, Some(f.1))),
            key,
        )),
{
}

} // verus!
