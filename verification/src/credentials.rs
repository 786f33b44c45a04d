//! The tokens that a request carries.

use vstd::prelude::*;
use vstd::utf8::{decode_utf8, valid_utf8};
use crate::outside::{base64_decoded, decode_base64, maybe_text, text_from_utf8, texts};
use crate::percent::{url_decoded, urlencoding_decode};
use crate::text::{after_prefix, first_index, split, split_by, split_once, strip_prefix, view_of};

verus! {

/// The session token in decoded Basic credentials: what follows the first colon of a
/// text.
pub open spec fn password_in(decoded: Option<Seq<u8>>) -> Option<Seq<char>> {
    match decoded {
        Some(bytes) => if valid_utf8(bytes) {
            match first_index(decode_utf8(bytes), ":"@) {
                Some(i) => Some(decode_utf8(bytes).skip(i + ":"@.len())),
                None => None,
            }
        } else {
            None
        },
        None => None,
    }
}

/// The session token that an `Authorization` header carries: after `Bearer`, or as
/// the password of Basic credentials.
pub open spec fn token_in(authorization: Option<Seq<char>>) -> Option<Seq<char>> {
    match authorization {
        Some(header) => match after_prefix(header, "Bearer "@) {
            Some(token) => Some(token),
            None => match after_prefix(header, "Basic "@) {
                Some(encoded) => password_in(base64_decoded(encoded)),
                None => None,
            },
        },
        None => None,
    }
}

/// The view of optional bytes.
pub open spec fn maybe_bytes(bytes: Option<Vec<u8>>) -> Option<Seq<u8>> {
    match bytes {
        Some(b) => Some(b@),
        None => None,
    }
}

/// The session token in decoded Basic credentials.
pub fn basic_password(decoded: Option<Vec<u8>>) -> (token: Option<String>)
    ensures
        maybe_text(token) == password_in(maybe_bytes(decoded)),
{
    match decoded {
        Some(bytes) => match text_from_utf8(bytes) {
            Some(text) => match split_once(&text, ":") {
                Some((_email, token)) => Some(token),
                None => None,
            },
            None => None,
        },
        None => None,
    }
}

/// The session token that an `Authorization` header carries.
pub fn session_token(authorization: Option<&str>) -> (token: Option<String>)
    ensures
        maybe_text(token) == token_in(view_of(authorization)),
{
    match authorization {
        Some(header) => match strip_prefix(header, "Bearer ") {
            Some(token) => Some(token),
            None => match strip_prefix(header, "Basic ") {
                Some(encoded) => basic_password(decode_base64(&encoded)),
                None => None,
            },
        },
        None => None,
    }
}

/// The session token that a log-out ends: only one that stands after `Bearer`.
pub open spec fn bearer_in(authorization: Option<Seq<char>>) -> Option<Seq<char>> {
    match authorization {
        Some(header) => after_prefix(header, "Bearer "@),
        None => None,
    }
}

/// The session token that a log-out ends.
pub fn bearer_token(authorization: Option<&str>) -> (token: Option<String>)
    ensures
        maybe_text(token) == bearer_in(view_of(authorization)),
{
    match authorization {
        Some(header) => strip_prefix(header, "Bearer "),
        None => None,
    }
}

/// What follows the prefix in the first text that begins with it.
pub open spec fn first_after_prefix(list: Seq<Seq<char>>, prefix: Seq<char>) -> Option<Seq<char>>
    decreases list.len(),
{
    if list.len() == 0 {
        None
    } else {
        match after_prefix(list[0], prefix) {
            Some(value) => Some(value),
            None => first_after_prefix(list.skip(1), prefix),
        }
    }
}

/// The value that the first parameter with a name has in a query, as it stands. The
/// name is given with its `=`.
pub open spec fn query_value(query: Seq<char>, name: Seq<char>) -> Option<Seq<char>> {
    first_after_prefix(split_by(query, "&"@), name)
}

/// The value that the first parameter with a name has in a query.
pub fn find_query_value(query: &str, name: &str) -> (value: Option<String>)
    ensures
        maybe_text(value) == query_value(query@, name@),
{
    proof {
        reveal_strlit("&");
    }
    let parts = split(query, "&");
    let ghost all = texts(parts@);
    let mut i: usize = 0;
    assert(all.skip(0) =~= all);
    while i < parts.len()
        invariant
            i <= parts@.len(),
            all == texts(parts@),
            all == split_by(query@, "&"@),
            first_after_prefix(all.skip(i as int), name@) == first_after_prefix(all, name@),
        decreases parts@.len() - i,
    {
        let ghost rest = all.skip(i as int);
        assert(rest[0] == parts@[i as int]@);
        assert(rest.skip(1) =~= all.skip(i + 1));
        match strip_prefix(&parts[i], name) {
            Some(value) => {
                return Some(value);
            },
            None => {},
        }
        i += 1;
    }
    assert(all.skip(i as int).len() == 0);
    None
}

/// The group token that a request carries: the parameter `token` of its query, or
/// else its `X-RGit-Group-Token` header.
pub open spec fn group_token_in(query: Option<Seq<char>>, header: Option<Seq<char>>) -> Option<Seq<char>> {
    match query {
        Some(q) => match query_value(q, "token="@) {
            Some(value) => Some(url_decoded(value)),
            None => header,
        },
        None => header,
    }
}

/// The group token that a request carries.
pub fn extract_group_token(query: Option<&str>, header: Option<&str>) -> (token: Option<String>)
    ensures
        maybe_text(token) == group_token_in(view_of(query), view_of(header)),
{
    match query {
        Some(q) => match find_query_value(q, "token=") {
            Some(value) => {
                return Some(urlencoding_decode(&value));
            },
            None => {},
        },
        None => {},
    }
    match header {
        Some(h) => Some(h.to_owned()),
        None => None,
    }
}

/// A token that is sent after `Bearer` and the same token that is sent as a Basic
/// password, with any user name, stand for the same session.
pub proof fn law_both_schemes_carry_the_same_token(token: Seq<char>, user: Seq<char>, encoded: Seq<char>, bytes: Seq<u8>)
    requires
        !user.contains(':'),
        base64_decoded(encoded) == Some(bytes),
        valid_utf8(bytes),
        decode_utf8(bytes) == user + seq![':'] + token,
    ensures
        token_in(Some("Bearer "@ + token)) == Some(token),
        token_in(Some("Basic "@ + encoded)) == Some(token),
{
    reveal_strlit("Bearer ");
    reveal_strlit("Basic ");
    reveal_strlit(":");
    let bearer = "Bearer "@ + token;
    assert("Bearer "@.is_prefix_of(bearer));
    assert(bearer.skip("Bearer "@.len() as int) =~= token);
    let basic = "Basic "@ + encoded;
    assert(basic[1] == 'a');
    assert("Bearer "@[1] == 'e');
    assert(!"Bearer "@.is_prefix_of(basic)) by {
        if "Bearer "@.is_prefix_of(basic) {
            assert("Bearer "@[1] == basic[1]);
        }
    }
    assert("Basic "@.is_prefix_of(basic));
    assert(basic.skip("Basic "@.len() as int) =~= encoded);
    let text = decode_utf8(bytes);
    let colon = ":"@;
    let n = user.len() as int;
    assert(colon =~= seq![':']);
    assert(colon.drop_last() =~= Seq::<char>::empty());
    assert(user + colon.drop_last() =~= user);
    assert(!crate::text::occurs_in(user, colon)) by {
        if crate::text::occurs_in(user, colon) {
            let i = choose|i: int| crate::text::occurs_at(user, colon, i);
            assert(user.subrange(i, i + colon.len())[0] == ':');
            assert(user[i] == ':');
        }
    }
    crate::text::lemma_first_after(user, colon, token);
    assert(user + colon + token =~= text);
    assert(text.skip(n + 1) =~= token);
}

/// A token in the query wins over one in the header.
pub proof fn law_query_token_wins(query: Seq<char>, header: Option<Seq<char>>)
    requires
        query_value(query, "token="@) is Some,
    ensures
        group_token_in(Some(query), header) == group_token_in(Some(query), None),
        group_token_in(Some(query), header) is Some,
{
}

/// A parameter of a query is found by its name, in the first place where it stands: the
/// parameters are separated by `&`, and the value is what follows the name.
pub proof fn law_query_parameters(name: Seq<char>, value: Seq<char>, other: Seq<char>, rest: Seq<char>)
    requires
        !name.contains('&'),
        !value.contains('&'),
        !other.contains('&'),
        forall|v: Seq<char>| other != #[trigger] (name + v),
    ensures
        query_value(name + value, name) == Some(value),
        query_value(name + value + seq!['&'] + rest, name) == Some(value),
        query_value(other, name) is None,
        query_value(other + seq!['&'] + rest, name) == query_value(rest, name),
{
    reveal_strlit("&");
    let mark = "&"@;
    assert(mark =~= seq!['&']);
    let whole = name + value;
    assert(!whole.contains('&')) by {
        if whole.contains('&') {
            let i = choose|i: int| 0 <= i < whole.len() && whole[i] == '&';
            if i < name.len() {
                assert(name[i] == '&');
            } else {
                assert(value[i - name.len()] == '&');
            }
        }
    }
    crate::text::law_split_at_the_first(whole, mark, rest);
    crate::text::law_split_at_the_first(other, mark, rest);
    crate::text::law_prefix_is_taken_off(name, value, other);
    let after = split_by(rest, mark);
    assert(after_prefix(other, name) is None) by {
        match after_prefix(other, name) {
            Some(v) => {
                assert(other == name + v);
            },
            None => {},
        }
    }
    assert((seq![whole] + after)[0] == whole);
    assert((seq![other] + after)[0] == other);
    assert((seq![other] + after).skip(1) =~= after);
    assert(seq![other].skip(1) =~= Seq::<Seq<char>>::empty());
    assert(first_after_prefix(seq![other].skip(1), name) is None);
}

/// The group token of a request is the decoded parameter `token` of its query, wherever
/// it stands in it, and the header where there is no such parameter.
pub proof fn law_group_token_of_a_request(
    value: Seq<char>,
    other: Seq<char>,
    rest: Seq<char>,
    header: Option<Seq<char>>,
)
    requires
        !value.contains('&'),
        !other.contains('&'),
        forall|v: Seq<char>| other != #[trigger] ("token="@ + v),
    ensures
        group_token_in(None, header) == header,
        group_token_in(Some("token="@ + value), header) == Some(url_decoded(value)),
        group_token_in(Some("token="@ + value + seq!['&'] + rest), header) == Some(url_decoded(value)),
        group_token_in(Some(other), header) == header,
        group_token_in(Some(other + seq!['&'] + rest), header) == group_token_in(Some(rest), header),
{
    reveal_strlit("token=");
    law_query_parameters("token="@, value, other, rest);
}

/// A request carries no session token without an `Authorization` header, nor with one
/// of another scheme, nor with Basic credentials that are not text with a colon.
pub proof fn law_other_headers_carry_no_token(header: Seq<char>, encoded: Seq<char>)
    ensures
        token_in(None) is None,
        (forall|t: Seq<char>| header != #[trigger] ("Bearer "@ + t)) && (forall|t: Seq<char>|
            header != #[trigger] ("Basic "@ + t)) ==> token_in(Some(header)) is None,
        base64_decoded(encoded) is None ==> token_in(Some("Basic "@ + encoded)) is None,
        base64_decoded(encoded) matches Some(bytes) && (!valid_utf8(bytes) || !decode_utf8(bytes).contains(':'))
            ==> token_in(Some("Basic "@ + encoded)) is None,
{
    reveal_strlit("Bearer ");
    reveal_strlit("Basic ");
    reveal_strlit(":");
    crate::text::law_prefix_is_taken_off("Bearer "@, encoded, header);
    crate::text::law_prefix_is_taken_off("Basic "@, encoded, header);
    match after_prefix(header, "Bearer "@) {
        Some(t) => {
            assert(header == "Bearer "@ + t);
        },
        None => {},
    }
    match after_prefix(header, "Basic "@) {
        Some(t) => {
            assert(header == "Basic "@ + t);
        },
        None => {},
    }
    let basic = "Basic "@ + encoded;
    assert(!"Bearer "@.is_prefix_of(basic)) by {
        if "Bearer "@.is_prefix_of(basic) {
            assert("Bearer "@[1] == basic[1]);
        }
    }
    match base64_decoded(encoded) {
        Some(bytes) => {
            let text = decode_utf8(bytes);
            if !text.contains(':') {
                crate::text::law_first_place(text, ":"@);
                match first_index(text, ":"@) {
                    Some(i) => {
                        assert((text.take(i) + ":"@ + text.skip(i + ":"@.len()))[i] == ':');
                        assert(text[i] == ':');
                    },
                    None => {},
                }
            }
        },
        None => {},
    }
}

/// A log-out ends the session of the token after `Bearer`, and none for any other header.
pub proof fn law_log_out_reads_bearer_only(header: Seq<char>, token: Seq<char>)
    ensures
        bearer_in(Some("Bearer "@ + token)) == Some(token),
        bearer_in(None) is None,
        (forall|t: Seq<char>| header != #[trigger] ("Bearer "@ + t)) ==> bearer_in(Some(header)) is None,
{
    crate::text::law_prefix_is_taken_off("Bearer "@, token, header);
    match after_prefix(header, "Bearer "@) {
        Some(t) => {
            assert(header == "Bearer "@ + t);
        },
        None => {},
    }
}

/// Optional bytes are there exactly where their bytes are, and Basic credentials carry
/// what follows the first colon.
pub proof fn law_password_follows_the_first_colon(bytes: Option<Vec<u8>>, user: Seq<char>, password: Seq<char>)
    requires
        !user.contains(':'),
    ensures
        match bytes {
            Some(b) => maybe_bytes(bytes) == Some(b@),
            None => maybe_bytes(bytes) is None,
        },
        password_in(Some(vstd::utf8::encode_utf8(user + seq![':'] + password))) == Some(password),
        password_in(None) is None,
{
    reveal_strlit(":");
    let colon = ":"@;
    assert(colon =~= seq![':']);
    let text = user + colon + password;
    vstd::utf8::encode_utf8_valid_utf8(text);
    vstd::utf8::encode_utf8_decode_utf8(text);
    crate::text::lemma_not_inside(user, colon);
    crate::text::lemma_first_after(user, colon, password);
    assert(text.skip(user.len() as int + colon.len()) =~= password);
}

} // verus!
