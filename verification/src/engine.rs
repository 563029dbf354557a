//! In-process generation: the conversation message handed to the engine and
//! the answer read back from its JSON reply. Loading the engine and running
//! it are the caller's part.

use vstd::prelude::*;
use crate::bootstrap::hex_digit;
use crate::text::{same_text, trim, trim_spec};

verus! {

// ---------------------------------------------------------------------------
// The message
// ---------------------------------------------------------------------------

/// How the JSON serializer writes one character inside a string: `"` and
/// `\` backslash-escaped, the control characters below U+0020 as `\b`,
/// `\t`, `\n`, `\f`, `\r` or `\u00xx` (lowercase hex), anything else as is.
pub open spec fn json_escape_char(c: char) -> Seq<char> {
    if c == '"' {
        seq!['\\', '"']
    } else if c == '\\' {
        seq!['\\', '\\']
    } else if c == '\x08' {
        seq!['\\', 'b']
    } else if c == '\t' {
        seq!['\\', 't']
    } else if c == '\n' {
        seq!['\\', 'n']
    } else if c == '\x0C' {
        seq!['\\', 'f']
    } else if c == '\r' {
        seq!['\\', 'r']
    } else if (c as int) < 0x20 {
        seq!['\\', 'u', '0', '0', hex_digit(c as int / 16), hex_digit(c as int % 16)]
    } else {
        seq![c]
    }
}

/// The escaped characters of `s`.
pub open spec fn json_escape(s: Seq<char>) -> Seq<char>
    decreases s.len(),
{
    if s.len() == 0 {
        seq![]
    } else {
        json_escape(s.drop_last()) + json_escape_char(s.last())
    }
}

/// `s` as a JSON string literal.
pub open spec fn json_string_spec(s: Seq<char>) -> Seq<char> {
    seq!['"'] + json_escape(s) + seq!['"']
}

/// `a` sorts strictly before `b` in `String`'s order: code point by code
/// point, a proper prefix first.
pub open spec fn text_less(a: Seq<char>, b: Seq<char>) -> bool
    decreases a.len(),
{
    if a.len() == 0 {
        b.len() > 0
    } else if b.len() == 0 {
        false
    } else if a[0] != b[0] {
        (a[0] as int) < (b[0] as int)
    } else {
        text_less(a.drop_first(), b.drop_first())
    }
}

/// The keys of `members` are in strictly increasing order.
pub open spec fn keys_ascending(members: Seq<(Seq<char>, Seq<char>)>) -> bool {
    forall|i: int| 0 <= i < members.len() - 1 ==> text_less(#[trigger] members[i].0, members[i + 1].0)
}

/// The members of a JSON object of strings, `"key":"value"` joined by `,`.
pub open spec fn json_members(members: Seq<(Seq<char>, Seq<char>)>) -> Seq<char>
    decreases members.len(),
{
    if members.len() == 0 {
        seq![]
    } else {
        let m = members.last();
        let one = json_string_spec(m.0) + seq![':'] + json_string_spec(m.1);
        if members.len() == 1 {
            one
        } else {
            json_members(members.drop_last()) + seq![','] + one
        }
    }
}

/// A JSON object of strings in compact form.
pub open spec fn json_object_spec(members: Seq<(Seq<char>, Seq<char>)>) -> Seq<char> {
    seq!['{'] + json_members(members) + seq!['}']
}

/// Builds a `serde_json::Value::Object` of string members and renders it
/// with `to_string`. The object is serde_json's `Map`, a `BTreeMap` without
/// the `preserve_order` feature, so members come out in key order; the
/// compact formatter writes `{`, `"key":value` pairs separated by `,`, and
/// `}`, each string with the escapes of `json_escape_char`. Claimed for
/// members given in strictly increasing key order (nothing is claimed
/// otherwise).
#[verifier::external_body]
fn json_object(members: &Vec<(String, String)>) -> (r: String)
    ensures
        keys_ascending(members@.map_values(|m: (String, String)| (m.0@, m.1@))) ==> r@
            == json_object_spec(members@.map_values(|m: (String, String)| (m.0@, m.1@))),
{
    serde_json::Value::Object(
        members.iter().map(|(k, v)| (k.clone(), serde_json::Value::String(v.clone()))).collect(),
    ).to_string()
}

/// The message for a plain prompt: a user turn whose content is the prompt.
pub open spec fn user_message_spec(prompt: Seq<char>) -> Seq<char> {
    json_object_spec(seq![("content"@, prompt), ("role"@, "user"@)])
}

/// The conversation message that asks `prompt`.
pub fn user_message(prompt: &str) -> (r: String)
    ensures
        r@ == user_message_spec(prompt@),
{
    let mut members: Vec<(String, String)> = Vec::new();
    members.push(("content".to_owned(), prompt.to_owned()));
    members.push(("role".to_owned(), "user".to_owned()));
    let ghost mv = members@.map_values(|m: (String, String)| (m.0@, m.1@));
    proof {
        reveal_strlit("content");
        reveal_strlit("role");
        assert(mv =~= seq![("content"@, prompt@), ("role"@, "user"@)]);
        assert(text_less("content"@, "role"@));
    }
    json_object(&members)
}

// ---------------------------------------------------------------------------
// The reply
// ---------------------------------------------------------------------------

/// A parsed JSON value. Objects keep their members in order; a number is
/// kept as its text.
pub enum Json {
    Null,
    Bool(bool),
    Number(String),
    Str(String),
    Array(Vec<Json>),
    Object(Vec<(String, Json)>),
}

/// The member `key` of an object's members (the first one with that key).
pub open spec fn member(es: Seq<(String, Json)>, key: Seq<char>) -> Option<Json>
    decreases es.len(),
{
    if es.len() == 0 {
        None
    } else if es[0].0@ == key {
        Some(es[0].1)
    } else {
        member(es.drop_first(), key)
    }
}

/// `v.get(key)`: the member `key` when `v` is an object that has one.
pub open spec fn get_spec(v: Json, key: Seq<char>) -> Option<Json> {
    match v {
        Json::Object(es) => member(es@, key),
        _ => None,
    }
}

/// The string held by an optional value, when it is a string.
pub open spec fn as_str_spec(v: Option<Json>) -> Option<Seq<char>> {
    match v {
        Some(Json::Str(s)) => Some(s@),
        _ => None,
    }
}

/// The `text` strings of `items`, concatenated in order (items without one
/// add nothing).
pub open spec fn texts_of(items: Seq<Json>) -> Seq<char>
    decreases items.len(),
{
    if items.len() == 0 {
        seq![]
    } else {
        texts_of(items.drop_last()) + match as_str_spec(get_spec(items.last(), "text"@)) {
            Some(t) => t,
            None => seq![],
        }
    }
}

/// The answer in a reply `raw` whose parse is `parsed`: the concatenated
/// `text` parts of a `content` array when they are not empty, else a
/// `content` string, else a top-level `text` string, else the raw reply
/// (also when it did not parse).
pub open spec fn extract_text_spec(raw: Seq<char>, parsed: Option<Json>) -> Seq<char> {
    match parsed {
        None => raw,
        Some(v) => {
            let content = get_spec(v, "content"@);
            let from_array = match content {
                Some(Json::Array(items)) => texts_of(items@),
                _ => seq![],
            };
            if from_array.len() > 0 {
                from_array
            } else {
                match as_str_spec(content) {
                    Some(c) => c,
                    None => match as_str_spec(get_spec(v, "text"@)) {
                        Some(t) => t,
                        None => raw,
                    },
                }
            }
        },
    }
}

fn get<'a>(v: &'a Json, key: &str) -> (r: Option<&'a Json>)
    ensures
        match r {
            Some(x) => get_spec(*v, key@) == Some(*x),
            None => get_spec(*v, key@) is None,
        },
{
    match v {
        Json::Object(es) => {
            let mut i: usize = 0;
            assert(es@.skip(0) =~= es@);
            assert(get_spec(*v, key@) == member(es@, key@));
            while i < es.len()
                invariant
                    0 <= i <= es.len(),
                    get_spec(*v, key@) == member(es@, key@),
                    member(es@.skip(i as int), key@) == member(es@, key@),
                decreases es.len() - i,
            {
                proof {
                    assert(es@.skip(i as int).drop_first() =~= es@.skip(i + 1));
                    assert(es@.skip(i as int)[0] == es@[i as int]);
                }
                if same_text(es[i].0.as_str(), key) {
                    assert(member(es@.skip(i as int), key@) == Some(es@[i as int].1));
                    return Some(&es[i].1);
                }
                i += 1;
            }
            assert(es@.skip(i as int) =~= Seq::<(String, Json)>::empty());
            None
        },
        _ => None,
    }
}

fn str_of(v: Option<&Json>) -> (r: Option<String>)
    ensures
        match r {
            Some(s) => v matches Some(x) && as_str_spec(Some(*x)) == Some(s@),
            None => v is None || as_str_spec(Some(*v.unwrap())) is None,
        },
{
    match v {
        Some(Json::Str(s)) => Some(s.clone()),
        _ => None,
    }
}

fn texts(items: &Vec<Json>) -> (r: String)
    ensures
        r@ == texts_of(items@),
{
    let mut r = String::new();
    let mut i: usize = 0;
    assert(items@.take(0) =~= Seq::<Json>::empty());
    while i < items.len()
        invariant
            0 <= i <= items.len(),
            r@ == texts_of(items@.take(i as int)),
        decreases items.len() - i,
    {
        proof {
            assert(items@.take(i + 1).drop_last() =~= items@.take(i as int));
            assert(items@.take(i + 1).last() == items@[i as int]);
        }
        match str_of(get(&items[i], "text")) {
            Some(t) => {
                r.append(t.as_str());
            },
            None => {
                assert(r@ + Seq::<char>::empty() =~= r@);
            },
        }
        i += 1;
    }
    assert(items@.take(i as int) =~= items@);
    r
}

/// The answer text of the engine's reply `raw`, given what parsing it as
/// JSON gave (`None` when it is not JSON).
pub fn extract_text(raw: &str, parsed: &Option<Json>) -> (r: String)
    ensures
        r@ == extract_text_spec(raw@, *parsed),
{
    match parsed {
        None => raw.to_owned(),
        Some(v) => {
            let content = get(v, "content");
            let from_array = match content {
                Some(Json::Array(items)) => texts(items),
                _ => String::new(),
            };
            if !from_array.as_str().is_empty() {
                return from_array;
            }
            match str_of(content) {
                Some(c) => c,
                None => match str_of(get(v, "text")) {
                    Some(t) => t,
                    None => raw.to_owned(),
                },
            }
        },
    }
}

#[verifier::external_type_specification]
#[verifier::external_body]
pub struct ExJsonValue(serde_json::Value);

/// What parsing `raw` as JSON gives (`serde_json::from_str` into a `Value`),
/// as a [`Json`] value; `None` when it is not JSON.
pub uninterp spec fn json_parse(raw: Seq<char>) -> Option<Json>;

/// Turns a parsed `serde_json::Value` into a [`Json`], variant for variant
/// (a number kept as its text). Nothing is claimed of the result; the
/// parse that calls it is named as a whole by `json_parse`.
#[verifier::external_body]
fn json_from_value(v: serde_json::Value) -> Json {
    match v {
        serde_json::Value::Null => Json::Null,
        serde_json::Value::Bool(b) => Json::Bool(b),
        serde_json::Value::Number(n) => Json::Number(n.to_string()),
        serde_json::Value::String(t) => Json::Str(t),
        serde_json::Value::Array(a) => Json::Array(a.into_iter().map(json_from_value).collect()),
        serde_json::Value::Object(m) => Json::Object(m.into_iter().map(|(k, x)| (k, json_from_value(x))).collect()),
    }
}

/// Calls `serde_json::from_str` for a `Value` and converts the value.
/// Claims only that the result is a fixed function of the text, named
/// `json_parse`; the JSON grammar is not restated.
#[verifier::external_body]
fn parse_json(raw: &str) -> (r: Option<Json>)
    ensures
        r == json_parse(raw@),
{
    serde_json::from_str::<serde_json::Value>(raw).ok().map(json_from_value)
}

/// The answer text of the engine's reply `reply`: parsed as JSON, then read
/// as `extract_text` reads it.
pub fn answer_of(reply: &str) -> (r: String)
    ensures
        r@ == extract_text_spec(reply@, json_parse(reply@)),
{
    let parsed = parse_json(reply);
    extract_text(reply, &parsed)
}

/// The outcome of an in-process generation that produced `out`: the answer,
/// or an error when it is blank.
pub fn generation_result(out: String) -> (r: Result<String, String>)
    ensures
        trim_spec(out@).len() > 0 ==> r == Ok::<String, String>(out),
        trim_spec(out@).len() == 0 ==> (r matches Err(e) && e@
            == "generation produced no output"@),
{
    let t = trim(out.as_str());
    if t.as_str().is_empty() {
        Err("generation produced no output".to_owned())
    } else {
        Ok(out)
    }
}

} // verus!
